//! The keys of a configuration that name the devices of a virtual machine:
//! the word of a device class, `ide`, `net`, `sata`, `scsi` or `virtio`,
//! and behind it an index, written in decimal and without leading zeros.

use crate::text::{
    chars_of, decimal, digits_value, is_index, lemma_decimal_is_index, lemma_index_is_decimal,
    read_index,
};
use crate::types::VmDiskType;
use vstd::prelude::*;

verus! {

/// The class of a device of a virtual machine: a disk of one of the disk
/// types, or a network interface.
#[derive(Debug, Clone, Copy, PartialEq, Eq, Structural)]
pub enum DeviceClass {
    /// An IDE disk.
    Ide,
    /// A network interface.
    Net,
    /// A serial ATA disk.
    Sata,
    /// A SCSI disk.
    Scsi,
    /// A virtio disk.
    Virtio,
}

impl DeviceClass {
    /// The word that a configuration key of the class starts with.
    pub open spec fn word(self) -> Seq<char> {
        match self {
            DeviceClass::Ide => "ide"@,
            DeviceClass::Net => "net"@,
            DeviceClass::Sata => "sata"@,
            DeviceClass::Scsi => "scsi"@,
            DeviceClass::Virtio => "virtio"@,
        }
    }

    /// The disk type of the class; a network interface has none.
    pub open spec fn spec_disk_type(self) -> Option<VmDiskType> {
        match self {
            DeviceClass::Ide => Some(VmDiskType::Ide),
            DeviceClass::Net => None,
            DeviceClass::Sata => Some(VmDiskType::Sata),
            DeviceClass::Scsi => Some(VmDiskType::Scsi),
            DeviceClass::Virtio => Some(VmDiskType::Virtio),
        }
    }

    /// The disk type of the class; a network interface has none.
    #[verifier::when_used_as_spec(spec_disk_type)]
    pub fn disk_type(self) -> (r: Option<VmDiskType>)
        ensures
            r == self.spec_disk_type(),
    {
        match self {
            DeviceClass::Ide => Some(VmDiskType::Ide),
            DeviceClass::Net => None,
            DeviceClass::Sata => Some(VmDiskType::Sata),
            DeviceClass::Scsi => Some(VmDiskType::Scsi),
            DeviceClass::Virtio => Some(VmDiskType::Virtio),
        }
    }

    fn name(self) -> (r: &'static str)
        ensures
            r@ == self.word(),
    {
        match self {
            DeviceClass::Ide => "ide",
            DeviceClass::Net => "net",
            DeviceClass::Sata => "sata",
            DeviceClass::Scsi => "scsi",
            DeviceClass::Virtio => "virtio",
        }
    }
}

/// The configuration key of the device of a class and an index: the word of
/// the class, then the index in decimal.
pub open spec fn device_key_text(class: DeviceClass, index: nat) -> Seq<char> {
    class.word() + decimal(index)
}

/// The index that `key` gives to a device of `class`, if `key` is the word
/// of the class and then a number in decimal without leading zeros.
pub open spec fn class_index(key: Seq<char>, class: DeviceClass) -> Option<nat> {
    let word = class.word();
    if key.len() >= word.len() && key.subrange(0, word.len() as int) == word && is_index(
        key.subrange(word.len() as int, key.len() as int),
    ) {
        Some(digits_value(key.subrange(word.len() as int, key.len() as int)))
    } else {
        None
    }
}

/// The device that a configuration key names, if it names one: the pattern
/// `^(ide|net|sata|scsi|virtio)(0|[1-9][0-9]*)$`.
pub open spec fn device_key(key: Seq<char>) -> Option<(DeviceClass, nat)> {
    if class_index(key, DeviceClass::Ide) is Some {
        Some((DeviceClass::Ide, class_index(key, DeviceClass::Ide)->0))
    } else if class_index(key, DeviceClass::Net) is Some {
        Some((DeviceClass::Net, class_index(key, DeviceClass::Net)->0))
    } else if class_index(key, DeviceClass::Sata) is Some {
        Some((DeviceClass::Sata, class_index(key, DeviceClass::Sata)->0))
    } else if class_index(key, DeviceClass::Scsi) is Some {
        Some((DeviceClass::Scsi, class_index(key, DeviceClass::Scsi)->0))
    } else if class_index(key, DeviceClass::Virtio) is Some {
        Some((DeviceClass::Virtio, class_index(key, DeviceClass::Virtio)->0))
    } else {
        None
    }
}

/// The words of the classes, letter by letter.
proof fn lemma_words()
    ensures
        DeviceClass::Ide.word() == seq!['i', 'd', 'e'],
        DeviceClass::Net.word() == seq!['n', 'e', 't'],
        DeviceClass::Sata.word() == seq!['s', 'a', 't', 'a'],
        DeviceClass::Scsi.word() == seq!['s', 'c', 's', 'i'],
        DeviceClass::Virtio.word() == seq!['v', 'i', 'r', 't', 'i', 'o'],
{
    reveal_strlit("ide");
    reveal_strlit("net");
    reveal_strlit("sata");
    reveal_strlit("scsi");
    reveal_strlit("virtio");
    assert("ide"@ =~= seq!['i', 'd', 'e']);
    assert("net"@ =~= seq!['n', 'e', 't']);
    assert("sata"@ =~= seq!['s', 'a', 't', 'a']);
    assert("scsi"@ =~= seq!['s', 'c', 's', 'i']);
    assert("virtio"@ =~= seq!['v', 'i', 'r', 't', 'i', 'o']);
}

/// The key of a device of a class and an index names that class and that
/// index: the index that is read from a key is the number that is written
/// behind the word of the class.
pub proof fn lemma_device_key_of_text(class: DeviceClass, index: nat)
    ensures
        device_key(device_key_text(class, index)) == Some((class, index)),
{
    lemma_words();
    lemma_decimal_is_index(index);
    let key = device_key_text(class, index);
    let word = class.word();
    assert(key.subrange(0, word.len() as int) =~= word);
    assert(key.subrange(word.len() as int, key.len() as int) =~= decimal(index));
    assert(class_index(key, class) == Some(index));
    assert(key[0] == word[0]);
    assert(key[1] == word[1]);
    assert forall|other: DeviceClass| other != class implies class_index(key, other) is None by {
        let w = other.word();
        if key.len() >= w.len() && key.subrange(0, w.len() as int) == w {
            assert(key.subrange(0, w.len() as int)[0] == key[0]);
            assert(key.subrange(0, w.len() as int)[1] == key[1]);
        }
    }
}

/// A key that names a device is the word of the class with the index
/// behind it in decimal: no other key names the device.
pub proof fn lemma_text_of_device_key(key: Seq<char>)
    requires
        device_key(key) is Some,
    ensures
        key == device_key_text((device_key(key)->0).0, (device_key(key)->0).1),
{
    let class = (device_key(key)->0).0;
    let word = class.word();
    let digits = key.subrange(word.len() as int, key.len() as int);
    assert(class_index(key, class) is Some);
    lemma_index_is_decimal(digits);
    assert(key =~= key.subrange(0, word.len() as int) + digits);
}

/// The keys that name a device: the word of a class, then an index in
/// decimal.
pub open spec fn is_device_key(key: Seq<char>) -> bool {
    exists|class: DeviceClass, index: nat| key == #[trigger] device_key_text(class, index)
}

/// The keys that are read as naming a device are the keys of that form.
pub proof fn lemma_device_key(key: Seq<char>)
    ensures
        is_device_key(key) <==> device_key(key) is Some,
{
    if device_key(key) is Some {
        lemma_text_of_device_key(key);
        assert(key == device_key_text((device_key(key)->0).0, (device_key(key)->0).1));
    }
    if is_device_key(key) {
        let (class, index) = choose|class: DeviceClass, index: nat|
            key == #[trigger] device_key_text(class, index);
        lemma_device_key_of_text(class, index);
    }
}

/// A key whose index is written with a zero in front of other digits
/// names no device.
pub proof fn lemma_leading_zero_names_none(class: DeviceClass, digits: Seq<char>)
    requires
        digits.len() > 1,
        digits[0] == '0',
    ensures
        device_key(class.word() + digits) is None,
{
    lemma_words();
    let key = class.word() + digits;
    let word = class.word();
    assert(key.subrange(word.len() as int, key.len() as int) =~= digits);
    assert(key[0] == word[0]);
    assert(key[1] == word[1]);
    assert forall|other: DeviceClass| class_index(key, other) is None by {
        let w = other.word();
        if other != class {
            if key.len() >= w.len() && key.subrange(0, w.len() as int) == w {
                assert(key.subrange(0, w.len() as int)[0] == key[0]);
                assert(key.subrange(0, w.len() as int)[1] == key[1]);
            }
        }
    }
}

/// Whether `s` starts with `word`.
fn starts_with(s: &[char], word: &[char]) -> (r: bool)
    ensures
        r == (s@.len() >= word@.len() && s@.subrange(0, word@.len() as int) == word@),
{
    if s.len() < word.len() {
        return false;
    }
    let mut i: usize = 0;
    while i < word.len()
        invariant
            i <= word@.len() <= s@.len(),
            forall|j: int| 0 <= j < i ==> s@[j] == word@[j],
        decreases word@.len() - i,
    {
        if s[i] != word[i] {
            assert(s@.subrange(0, word@.len() as int)[i as int] != word@[i as int]);
            return false;
        }
        i += 1;
    }
    assert(s@.subrange(0, word@.len() as int) =~= word@);
    true
}

/// The index that the characters of a key give to a device of `class`. The
/// inner `None` stands for an index that does not fit in 32 bits.
fn match_class(key: &[char], class: DeviceClass) -> (r: Option<Option<u32>>)
    ensures
        match r {
            None => class_index(key@, class) is None,
            Some(Some(index)) => class_index(key@, class) == Some(index as nat),
            Some(None) => class_index(key@, class) is Some && class_index(key@, class)->0 > u32::MAX,
        },
{
    let word = chars_of(class.name());
    if starts_with(key, word.as_slice()) {
        read_index(key, word.len())
    } else {
        None
    }
}

/// Tells whether a configuration key names a device, and which. The inner
/// `None` stands for an index that does not fit in 32 bits.
pub fn match_device_key(key: &str) -> (r: Option<(DeviceClass, Option<u32>)>)
    ensures
        r is Some <==> is_device_key(key@),
        match r {
            None => device_key(key@) is None,
            Some((class, Some(index))) => device_key(key@) == Some((class, index as nat)),
            Some((class, None)) => device_key(key@) is Some && (device_key(key@)->0).0 == class && (
            device_key(key@)->0).1 > u32::MAX,
        },
{
    proof {
        lemma_device_key(key@);
    }
    let chars = chars_of(key);
    let s = chars.as_slice();
    if let Some(index) = match_class(s, DeviceClass::Ide) {
        return Some((DeviceClass::Ide, index));
    }
    if let Some(index) = match_class(s, DeviceClass::Net) {
        return Some((DeviceClass::Net, index));
    }
    if let Some(index) = match_class(s, DeviceClass::Sata) {
        return Some((DeviceClass::Sata, index));
    }
    if let Some(index) = match_class(s, DeviceClass::Scsi) {
        return Some((DeviceClass::Scsi, index));
    }
    if let Some(index) = match_class(s, DeviceClass::Virtio) {
        return Some((DeviceClass::Virtio, index));
    }
    None
}

} // verus!
