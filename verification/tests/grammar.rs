use proxmoxy::defs::{ApiError, Error};
use proxmoxy::parse::{definition_text, disk};

fn parsed(input: &str) -> (String, String, Vec<(String, String)>) {
    let (storage, volume, options) = disk(input).expect("a disk definition");
    (storage, volume, options.entries().clone())
}

fn pair(name: &str, value: &str) -> (String, String) {
    (name.to_owned(), value.to_owned())
}

fn refused(input: &str) {
    assert_eq!(
        disk(input).err(),
        Some(Error::Api(ApiError::DiskDefinition(input.to_owned())))
    );
}

#[test]
fn disk_with_options() {
    let (storage, volume, options) = parsed("sp1:vol-1,cache=none,discard=on,iothread=1");
    assert_eq!(storage, "sp1");
    assert_eq!(volume, "vol-1");
    assert_eq!(
        options,
        vec![pair("cache", "none"), pair("discard", "on"), pair("iothread", "1")]
    );
}

#[test]
fn disk_without_options() {
    let (storage, volume, options) = parsed("local-lvm:vm-100-disk-0");
    assert_eq!(storage, "local-lvm");
    assert_eq!(volume, "vm-100-disk-0");
    assert!(options.is_empty());
    let (_, _, held) = disk("local-lvm:vm-100-disk-0").unwrap();
    assert!(held.is_empty());
    assert_eq!(held.len(), 0);
}

#[test]
fn disk_options_are_looked_up_by_name() {
    let (_, _, options) = disk("sp1:vol-1,cache=none,size=32G").unwrap();
    assert_eq!(options.get("cache").map(String::as_str), Some("none"));
    assert_eq!(options.get("size").map(String::as_str), Some("32G"));
    assert_eq!(options.get("discard"), None);
    assert!(options.contains_key("size"));
    assert!(!options.contains_key("siz"));
    assert_eq!(options.len(), 2);
}

#[test]
fn the_last_value_of_an_option_wins() {
    let (_, _, options) = disk("sp1:vol-1,cache=none,size=1G,cache=writeback").unwrap();
    assert_eq!(options.get("cache").map(String::as_str), Some("writeback"));
    assert_eq!(options.len(), 2);
    assert_eq!(
        options.entries().clone(),
        vec![pair("cache", "writeback"), pair("size", "1G")]
    );
}

#[test]
fn volume_and_values_may_be_empty() {
    assert_eq!(parsed("sp1:"), ("sp1".to_owned(), String::new(), vec![]));
    assert_eq!(
        parsed("sp1:,a="),
        ("sp1".to_owned(), String::new(), vec![pair("a", "")])
    );
    assert_eq!(
        parsed("0:v,1=x=y:z"),
        ("0".to_owned(), "v".to_owned(), vec![pair("1", "x=y:z")])
    );
}

#[test]
fn volume_and_values_may_hold_any_other_character() {
    let (storage, volume, options) = parsed("sp1:vm disk/\u{e9}\u{4e2d},note=caf\u{e9} \u{1f600}!,x_y-z=1");
    assert_eq!(storage, "sp1");
    assert_eq!(volume, "vm disk/\u{e9}\u{4e2d}");
    assert_eq!(
        options,
        vec![pair("note", "caf\u{e9} \u{1f600}!"), pair("x_y-z", "1")]
    );
}

#[test]
fn texts_outside_the_grammar_are_refused() {
    refused("");
    refused("sp1");
    refused(":vol");
    refused("Sp1:vol");
    refused("_sp1:vol");
    refused("-sp1:vol");
    refused("sp 1:vol");
    refused("sp1:vol:more");
    refused("sp1:vol,");
    refused("sp1:vol,cache");
    refused("sp1:vol,=none");
    refused("sp1:vol,Cache=none");
    refused("sp1:vol,cache=none,");
    refused("sp1:vol,cache=none,,discard=on");
    refused(" sp1:vol");
    refused("sp1:vol,garbage");
    refused("sp\u{e9}:vol");
}

#[test]
fn trailing_text_after_a_definition_is_refused() {
    assert!(disk("sp1:vol-1").is_ok());
    refused("sp1:vol-1:");
    refused("sp1:vol-1:x");
    assert!(disk("sp1:vol-1,cache=none").is_ok());
    refused("sp1:vol-1,cache=none,");
    refused("sp1:vol-1,cache=none,x");
    refused("sp1:vol-1,cache=none, discard=on");
}

#[test]
fn storage_and_volume_alone_are_accepted() {
    for storage in ["a", "0", "sp1", "local-lvm", "a_b-c9", "9-_"] {
        for volume in ["", "v", "vm-100-disk-0", "a b=c", "base-9/vm.qcow2"] {
            let text = format!("{storage}:{volume}");
            let (s, v, o) = parsed(&text);
            assert_eq!(s, storage);
            assert_eq!(v, volume);
            assert!(o.is_empty());
        }
    }
}

#[test]
fn a_definition_is_written_as_it_is_read() {
    let text = "sp1:vol-1,cache=none,discard=on,iothread=1";
    let (storage, volume, options) = disk(text).unwrap();
    assert_eq!(definition_text(&storage, &volume, &options), text);
    let (storage, volume, options) = disk("sp1:").unwrap();
    assert_eq!(definition_text(&storage, &volume, &options), "sp1:");
}

#[test]
fn reading_and_writing_round_trips() {
    for text in [
        "sp1:vol-1",
        "sp1:vol-1,cache=none,discard=on,iothread=1",
        "sp1:vol-1,size=1G,cache=none,size=2G,cache=writeback",
        "local:100/vm-100-disk-0.qcow2,size=32G,ssd=1",
        "s:,a=,b==,c=:",
    ] {
        let (storage, volume, options) = disk(text).unwrap();
        let written = definition_text(&storage, &volume, &options);
        let (storage2, volume2, options2) = disk(&written).unwrap();
        assert_eq!(storage2, storage);
        assert_eq!(volume2, volume);
        assert_eq!(options2, options);
        assert_eq!(definition_text(&storage2, &volume2, &options2), written);
    }
}

#[test]
fn options_can_be_set_one_by_one() {
    let (_, _, options) = disk("sp1:v").unwrap();
    let options = options.insert("cache".to_owned(), "none".to_owned());
    let options = options.insert("size".to_owned(), "1G".to_owned());
    let options = options.insert("cache".to_owned(), "unsafe".to_owned());
    assert_eq!(options.len(), 2);
    assert_eq!(options.get("cache").map(String::as_str), Some("unsafe"));
    assert_eq!(definition_text("sp1", "v", &options), "sp1:v,cache=unsafe,size=1G");
}
