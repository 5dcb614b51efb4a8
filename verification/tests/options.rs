use rx::options::OpenOptions;

fn flags(o: &OpenOptions) -> [bool; 5] {
    [o.reads(), o.writes(), o.creates(), o.appends(), o.truncates()]
}

#[test]
fn new_options_have_every_flag_off() {
    let o = OpenOptions::new();
    assert_eq!(flags(&o), [false; 5]);
    assert!(!o.may_alter());
    assert_eq!(o, OpenOptions::default());
}

#[test]
fn each_setter_changes_its_flag_only() {
    let o = OpenOptions::new().read(true);
    assert_eq!(flags(&o), [true, false, false, false, false]);
    let o = o.write(true);
    assert_eq!(flags(&o), [true, true, false, false, false]);
    let o = o.create(true);
    assert_eq!(flags(&o), [true, true, true, false, false]);
    let o = o.append(true);
    assert_eq!(flags(&o), [true, true, true, true, false]);
    let o = o.truncate(true);
    assert_eq!(flags(&o), [true; 5]);
    let o = o.read(false).create(false);
    assert_eq!(flags(&o), [false, true, false, true, true]);
}

#[test]
fn only_reading_does_not_alter() {
    assert!(!OpenOptions::new().read(true).may_alter());
    assert!(OpenOptions::new().write(true).may_alter());
    assert!(OpenOptions::new().create(true).may_alter());
    assert!(OpenOptions::new().append(true).may_alter());
    assert!(OpenOptions::new().truncate(true).may_alter());
}

#[test]
fn presets_match_the_vfs_shortcuts() {
    assert_eq!(flags(&OpenOptions::for_reading()), [true, false, false, false, false]);
    assert_eq!(flags(&OpenOptions::for_creating()), [false, true, true, false, true]);
    assert_eq!(flags(&OpenOptions::for_appending()), [false, true, true, true, false]);
    assert_eq!(OpenOptions::for_reading(), OpenOptions::new().read(true));
}
