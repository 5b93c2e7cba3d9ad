use save_sync::extdata::v1_get_extdata_info;
use save_sync::listing::{
    describe_below, list_files, relative_path, strip_root, v1_get_title_ids, FoundFile,
};
use save_sync::quit::{HandlerSlot, QuitEvent, QuitRoute};
use save_sync::save::v1_get_save_info;

fn parts(list: &[&str]) -> Vec<String> {
    list.iter().map(|s| s.to_string()).collect()
}

#[test]
fn listed_paths_start_below_the_title_directory() {
    assert_eq!(relative_path(&parts(&[".", "saves", "1F", "a", "b.bin"]), 0x1f), "/a/b.bin");
    assert_eq!(relative_path(&parts(&["saves", "1F", "b.bin"]), 0x1f), "/b.bin");
    assert_eq!(relative_path(&parts(&["saves", "1F"]), 0x1f), "/");
    assert_eq!(relative_path(&parts(&["saves", "20", "b.bin"]), 0x1f), "/");
    assert_eq!(relative_path(&parts(&[]), 0x1f), "/");
    assert_eq!(relative_path(&parts(&["1F", "1F", "x"]), 0x1f), "/1F/x");
    assert_eq!(relative_path(&parts(&["1f", "x"]), 0x1f), "/");
}

#[test]
fn listings_describe_each_file() {
    let found = vec![
        FoundFile { components: parts(&["saves", "1F", "a.bin"]), content: b"hello".to_vec() },
        FoundFile { components: parts(&["saves", "1F", "d", "e"]), content: vec![] },
    ];
    let listing = list_files(0x1f, &found);
    assert_eq!(listing.len(), 2);
    assert_eq!(listing[0].path, "/a.bin");
    assert_eq!(listing[0].size, 5);
    assert_eq!(listing[0].hash, "2cf24dba5fb0a30e26e83b2ac5b9e29e1b161e5c1fa7425e73043362938b9824");
    assert_eq!(listing[1].path, "/d/e");
    assert_eq!(listing[1].size, 0);
    assert_eq!(listing[1].hash, "e3b0c44298fc1c149afbf4c8996fb92427ae41e4649b934ca495991b7852b855");
}

#[test]
fn save_and_extdata_listings() {
    let found = vec![FoundFile {
        components: parts(&[".", "extdata", "ABC", "x"]),
        content: b"hello".to_vec(),
    }];
    let ext = v1_get_extdata_info(0xabc, &found);
    assert_eq!(ext.len(), 1);
    assert_eq!(ext[0].path, "/x");
    assert_eq!(ext[0].size, 5);
    let save = v1_get_save_info(0xabd, &found);
    assert_eq!(save.len(), 1);
    assert_eq!(save[0].path, "/");
    assert_eq!(v1_get_save_info(1, &vec![]).len(), 0);
}

#[test]
fn titles_are_listed_once() {
    assert_eq!(v1_get_title_ids(&parts(&["1F", "20", "1f", "+20", "0"])), Some(vec![0x1f, 0x20, 0]));
    assert_eq!(v1_get_title_ids(&parts(&[])), Some(vec![]));
    assert_eq!(v1_get_title_ids(&parts(&["FFFFFFFFFFFFFFFF"])), Some(vec![u64::MAX]));
}

#[test]
fn a_name_that_is_no_title_fails_the_listing() {
    assert_eq!(v1_get_title_ids(&parts(&["1F", "readme.txt"])), None);
    assert_eq!(v1_get_title_ids(&parts(&[""])), None);
    assert_eq!(v1_get_title_ids(&parts(&["10000000000000000"])), None);
}

#[test]
fn first_offer_of_a_handler_counts() {
    let mut slot = HandlerSlot::Unset;
    assert!(QuitEvent::set_event_handler(&mut slot, true));
    assert_eq!(slot, HandlerSlot::Installed);
    assert!(!QuitEvent::set_event_handler(&mut slot, false));
    assert_eq!(slot, HandlerSlot::Installed);
    assert_eq!(QuitEvent::send(&mut slot, QuitEvent {}), QuitRoute::Handler);
    assert_eq!(slot, HandlerSlot::Installed);
}

#[test]
fn settling_on_no_handler_sends_to_the_channel() {
    let mut slot = HandlerSlot::Unset;
    assert!(QuitEvent::set_event_handler(&mut slot, false));
    assert_eq!(slot, HandlerSlot::Vacant);
    assert!(!QuitEvent::set_event_handler(&mut slot, true));
    assert_eq!(slot, HandlerSlot::Vacant);
    assert_eq!(QuitEvent::send(&mut slot, QuitEvent {}), QuitRoute::Channel);
}

#[test]
fn sending_first_settles_on_the_channel() {
    let mut slot = HandlerSlot::Unset;
    assert_eq!(QuitEvent::send(&mut slot, QuitEvent {}), QuitRoute::Channel);
    assert_eq!(slot, HandlerSlot::Vacant);
    assert!(!QuitEvent::set_event_handler(&mut slot, true));
    assert_eq!(QuitEvent::send(&mut slot, QuitEvent {}), QuitRoute::Channel);
}

#[test]
fn paths_are_taken_relative_to_a_root() {
    assert_eq!(strip_root("./data/1F/save", "./data/1F/save/a/b.bin"), Some("/a/b.bin".to_string()));
    assert_eq!(strip_root("./data/1F/save", "./data/1F/save"), Some("".to_string()));
    assert_eq!(strip_root("", "/a"), Some("/a".to_string()));
    assert_eq!(strip_root("./data/1F/save", "./data/1F/sav"), None);
    assert_eq!(strip_root("./data/1F/save", "./data/20/save/a"), None);
    assert_eq!(strip_root("\u{e4}", "\u{e4}/x"), Some("/x".to_string()));
}

#[test]
fn files_below_a_root_are_described() {
    let file = describe_below("./t/x", "./t/x/d/a.bin", b"hello").unwrap();
    assert_eq!(file.path, "/d/a.bin");
    assert_eq!(file.size, 5);
    assert_eq!(file.hash, "2cf24dba5fb0a30e26e83b2ac5b9e29e1b161e5c1fa7425e73043362938b9824");
    assert!(describe_below("./t/x", "./t/y/a.bin", b"hello").is_none());
}
