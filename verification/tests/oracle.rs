use std::collections::BTreeMap;

use nom::character::complete::{char, none_of, one_of};
use nom::combinator::{all_consuming, recognize};
use nom::multi::many0;
use nom::sequence::{pair, preceded, separated_pair, tuple};
use nom::IResult;
use regex::Regex;

use proxmoxy::parse::disk;
use proxmoxy::device::{match_device_key, DeviceClass};

const ID_FIRST: &str = "abcdefghijklmnopqrstuvwxyz0123456789";
const ID_REST: &str = "abcdefghijklmnopqrstuvwxyz0123456789_-";

fn identifier(input: &str) -> IResult<&str, &str> {
    recognize(pair(one_of(ID_FIRST), many0(one_of(ID_REST))))(input)
}

fn volume(input: &str) -> IResult<&str, &str> {
    recognize(many0(none_of(":,")))(input)
}

fn value(input: &str) -> IResult<&str, &str> {
    recognize(many0(none_of(",")))(input)
}

fn option(input: &str) -> IResult<&str, (&str, &str)> {
    preceded(char(','), separated_pair(identifier, char('='), value))(input)
}

type Definition = (String, String, BTreeMap<String, String>);

/// The grammar of disk definitions, put together from combinators.
fn by_combinators(input: &str) -> Option<Definition> {
    let parsed: IResult<&str, ((&str, &str), Vec<(&str, &str)>)> = all_consuming(tuple((
        separated_pair(identifier, char(':'), volume),
        many0(option),
    )))(input);
    let (_, ((storage, volume), options)) = parsed.ok()?;
    let mut map = BTreeMap::new();
    for (name, value) in options {
        map.insert(name.to_owned(), value.to_owned());
    }
    Some((storage.to_owned(), volume.to_owned(), map))
}

fn by_the_library(input: &str) -> Option<Definition> {
    let (storage, volume, options) = disk(input).ok()?;
    let map: BTreeMap<String, String> = options.entries().iter().cloned().collect();
    assert_eq!(map.len(), options.len());
    Some((storage, volume, map))
}

/// All the texts over an alphabet up to a length.
fn texts(alphabet: &[char], longest: usize) -> Vec<String> {
    let mut all = vec![String::new()];
    let mut last = vec![String::new()];
    for _ in 0..longest {
        let mut next = Vec::new();
        for text in &last {
            for c in alphabet {
                let mut longer = text.clone();
                longer.push(*c);
                next.push(longer);
            }
        }
        all.extend(next.iter().cloned());
        last = next;
    }
    all
}

#[test]
fn the_grammar_agrees_with_combinators_on_short_texts() {
    let mut accepted = 0;
    for text in texts(&['a', '0', '_', ':', ',', '=', 'X'], 6) {
        let expected = by_combinators(&text);
        if expected.is_some() {
            accepted += 1;
        }
        assert_eq!(by_the_library(&text), expected, "{text:?}");
    }
    assert!(accepted > 1000);
}

#[test]
fn the_grammar_agrees_with_combinators_on_longer_texts() {
    let heads = ["sp1", "local-lvm", "0", "a_b", "-x", "", "Sp", "s p", "\u{e9}"];
    let volumes = ["vol-1", "", "vm-100-disk-0", "a b", "\u{4e2d}\u{6587}", "x=y", "x:y", "x,y"];
    let tails = [
        "",
        ",cache=none",
        ",cache=none,discard=on,iothread=1",
        ",a=1,a=2,b=3,a=4",
        ",size=32G,ssd=1,",
        ",=x",
        ",k",
        ",k=",
        ",k==",
        ",k=v:w",
        ",K=v",
        ",k=\u{1f600}",
        ",k =v",
        ",k=v, l=w",
        ",-k=v",
        ",_=v",
        ",0=v",
        ":",
        ";",
    ];
    for head in heads {
        for volume in volumes {
            for tail in tails {
                let text = format!("{head}:{volume}{tail}");
                assert_eq!(by_the_library(&text), by_combinators(&text), "{text:?}");
                let text = format!("{head}{volume}{tail}");
                assert_eq!(by_the_library(&text), by_combinators(&text), "{text:?}");
            }
        }
    }
}

/// The pattern of the keys that name devices.
const PERIPHERAL: &str = r"(?x)
    ^
    (?P<type> ide | net | sata | scsi | virtio )
    (?P<idx> 0 | [1-9][0-9]* )
    $
";

fn class_of(word: &str) -> DeviceClass {
    match word {
        "ide" => DeviceClass::Ide,
        "net" => DeviceClass::Net,
        "sata" => DeviceClass::Sata,
        "scsi" => DeviceClass::Scsi,
        "virtio" => DeviceClass::Virtio,
        other => panic!("{other} is no class"),
    }
}

fn by_pattern(pattern: &Regex, key: &str) -> Option<(DeviceClass, Option<u32>)> {
    let found = pattern.captures(key)?;
    let class = class_of(found.name("type").unwrap().as_str());
    let index = found.name("idx").unwrap().as_str().parse::<u32>().ok();
    Some((class, index))
}

#[test]
fn device_keys_agree_with_the_pattern() {
    let pattern = Regex::new(PERIPHERAL).unwrap();
    let words = [
        "ide", "net", "sata", "scsi", "virtio", "", "i", "id", "idee", "IDE", "scs", "scsii",
        "sat", "virti", "virtio0", "net1", "nets", " ide", "ide ", "xide", "unused", "efidisk",
        "n\u{e9}t", "sсsi",
    ];
    let mut matched = 0;
    for word in words {
        for index in texts(&['0', '1', '9', 'a', ' ', '-', '\n'], 4) {
            let key = format!("{word}{index}");
            let expected = by_pattern(&pattern, &key);
            if expected.is_some() {
                matched += 1;
            }
            assert_eq!(match_device_key(&key), expected, "{key:?}");
        }
        for index in [
            "4294967295",
            "4294967296",
            "4294967300",
            "10000000000",
            "99999999999999999999",
            "04294967295",
            "429496729５",
            "1234567890",
            "\u{661}",
            "1\u{662}",
        ] {
            let key = format!("{word}{index}");
            assert_eq!(match_device_key(&key), by_pattern(&pattern, &key), "{key:?}");
        }
    }
    assert!(matched > 500);
}
