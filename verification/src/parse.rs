//! Parse various Proxmox VE configuration and status strings.
//!
//! A disk definition is written as
//!
//! ```text
//! disk         := storage-id ':' volume-id option*
//! storage-id   := [a-z0-9][a-z0-9_-]*
//! volume-id    := any run of characters but ':' and ','
//! option       := ',' option-id '=' option-value
//! option-id    := [a-z0-9][a-z0-9_-]*
//! option-value := any run of characters but ','
//! ```
//!
//! and nothing may stand before or after it.

use crate::defs::{ApiError, ApiErrorView, Error, ErrorView};
use crate::options::{
    distinct_names, lemma_options_list, lemma_options_list_held, lemma_options_map_entry,
    lemma_options_map_names, lemma_options_map_value, options_list, options_map, DiskOptions,
};
use crate::text::chars_of;
use vstd::prelude::*;
use vstd::string::StrSliceExecFns;
use vstd::string::StringExecFns;

verus! {

/// The characters that an identifier may start with.
pub open spec fn is_id_first(c: char) -> bool {
    ('a' <= c && c <= 'z') || ('0' <= c && c <= '9')
}

/// The characters that an identifier may go on with.
pub open spec fn is_id_rest(c: char) -> bool {
    is_id_first(c) || c == '_' || c == '-'
}

/// `[a-z0-9][a-z0-9_-]*`: the name of a storage or of an option.
pub open spec fn is_proxmox_id(s: Seq<char>) -> bool {
    &&& s.len() > 0
    &&& is_id_first(s[0])
    &&& forall|i: int| 0 < i < s.len() ==> is_id_rest(#[trigger] s[i])
}

/// A run of characters that holds neither `:` nor `,`.
pub open spec fn is_volume_id(s: Seq<char>) -> bool {
    forall|i: int| 0 <= i < s.len() ==> #[trigger] s[i] != ':' && s[i] != ','
}

/// A run of characters that holds no `,`.
pub open spec fn is_option_value(s: Seq<char>) -> bool {
    forall|i: int| 0 <= i < s.len() ==> #[trigger] s[i] != ','
}

/// What a disk definition says: the storage, the volume in it, and the
/// options in the order in which they are written.
pub struct DiskDefinition {
    pub storage: Seq<char>,
    pub volume: Seq<char>,
    pub options: Seq<(Seq<char>, Seq<char>)>,
}

impl DiskDefinition {
    /// Each part is of the form that the grammar gives it.
    pub open spec fn well_formed(self) -> bool {
        &&& is_proxmox_id(self.storage)
        &&& is_volume_id(self.volume)
        &&& options_well_formed(self.options)
    }

    /// The definition as it is written.
    pub open spec fn text(self) -> Seq<char> {
        self.storage + seq![':'] + self.volume + options_text(self.options)
    }
}

/// A list of options as it is written: `,name=value` for each.
pub open spec fn options_text(options: Seq<(Seq<char>, Seq<char>)>) -> Seq<char>
    decreases options.len(),
{
    if options.len() == 0 {
        Seq::empty()
    } else {
        seq![','] + options[0].0 + seq!['='] + options[0].1 + options_text(options.drop_first())
    }
}

/// The first position from `from` on at which `s` holds `a` or `b`; the
/// length of `s` if there is none.
pub open spec fn next_stop(s: Seq<char>, from: int, a: char, b: char) -> int
    decreases s.len() - from,
{
    if from < 0 || from >= s.len() {
        s.len() as int
    } else if s[from] == a || s[from] == b {
        from
    } else {
        next_stop(s, from + 1, a, b)
    }
}

/// The options that are written in `s` from `from` to its end, if that
/// part of `s` is a list of options.
pub open spec fn options_at(s: Seq<char>, from: int) -> Option<Seq<(Seq<char>, Seq<char>)>>
    decreases s.len() - from,
{
    if from < 0 || from >= s.len() {
        Some(Seq::empty())
    } else if s[from] != ',' {
        None
    } else {
        let eq = next_stop(s, from + 1, '=', '=');
        let end = next_stop(s, eq + 1, ',', ',');
        if eq >= s.len() || !is_proxmox_id(s.subrange(from + 1, eq)) {
            None
        } else {
            proof {
                lemma_next_stop(s, from + 1, '=', '=');
                lemma_next_stop(s, eq + 1, ',', ',');
            }
            match options_at(s, end) {
                Some(rest) => Some(seq![(s.subrange(from + 1, eq), s.subrange(eq + 1, end))] + rest),
                None => None,
            }
        }
    }
}

/// What the text `s` says as a disk definition, if it is one.
pub open spec fn disk_definition(s: Seq<char>) -> Option<DiskDefinition> {
    let colon = next_stop(s, 0, ':', ':');
    let end = next_stop(s, colon + 1, ':', ',');
    if colon >= s.len() || !is_proxmox_id(s.subrange(0, colon)) {
        None
    } else {
        match options_at(s, end) {
            Some(options) => Some(
                DiskDefinition {
                    storage: s.subrange(0, colon),
                    volume: s.subrange(colon + 1, end),
                    options,
                },
            ),
            None => None,
        }
    }
}

/// A stop is found at or after the place from which it is looked for, and
/// nothing before it is one.
pub proof fn lemma_next_stop(s: Seq<char>, from: int, a: char, b: char)
    requires
        0 <= from <= s.len(),
    ensures
        from <= next_stop(s, from, a, b) <= s.len(),
        next_stop(s, from, a, b) < s.len() ==> s[next_stop(s, from, a, b)] == a || s[next_stop(
            s,
            from,
            a,
            b,
        )] == b,
        forall|i: int| from <= i < next_stop(s, from, a, b) ==> #[trigger] s[i] != a && s[i] != b,
    decreases s.len() - from,
{
    if from < s.len() && !(s[from] == a || s[from] == b) {
        lemma_next_stop(s, from + 1, a, b);
    }
}

/// Where nothing from `from` up to `at` is a stop, and `at` is one or the
/// end of `s`, the next stop from `from` on is `at`.
pub proof fn lemma_next_stop_at(s: Seq<char>, from: int, a: char, b: char, at: int)
    requires
        0 <= from <= at <= s.len(),
        forall|i: int| from <= i < at ==> #[trigger] s[i] != a && s[i] != b,
        at < s.len() ==> s[at] == a || s[at] == b,
    ensures
        next_stop(s, from, a, b) == at,
    decreases at - from,
{
    if from < at {
        lemma_next_stop_at(s, from + 1, a, b, at);
    }
}

/// Text in front of `t` moves the next stop by its length.
pub proof fn lemma_next_stop_shift(prefix: Seq<char>, t: Seq<char>, i: int, a: char, b: char)
    requires
        0 <= i <= t.len(),
    ensures
        next_stop(prefix + t, prefix.len() + i, a, b) == prefix.len() + next_stop(t, i, a, b),
    decreases t.len() - i,
{
    if i < t.len() {
        assert((prefix + t)[prefix.len() + i] == t[i]);
        if !(t[i] == a || t[i] == b) {
            lemma_next_stop_shift(prefix, t, i + 1, a, b);
        }
    }
}

/// Text in front of `t` does not change the options that are read from a
/// place in `t`.
pub proof fn lemma_options_at_shift(prefix: Seq<char>, t: Seq<char>, i: int)
    requires
        0 <= i <= t.len(),
    ensures
        options_at(prefix + t, prefix.len() + i) == options_at(t, i),
    decreases t.len() - i,
{
    let s = prefix + t;
    let n = prefix.len() as int;
    if i < t.len() {
        assert(s[n + i] == t[i]);
        if t[i] == ',' {
            lemma_next_stop_shift(prefix, t, i + 1, '=', '=');
            lemma_next_stop(t, i + 1, '=', '=');
            let eq = next_stop(t, i + 1, '=', '=');
            if eq < t.len() {
                lemma_next_stop_shift(prefix, t, eq + 1, ',', ',');
                lemma_next_stop(t, eq + 1, ',', ',');
                let end = next_stop(t, eq + 1, ',', ',');
                assert(s.subrange(n + i + 1, n + eq) =~= t.subrange(i + 1, eq));
                assert(s.subrange(n + eq + 1, n + end) =~= t.subrange(eq + 1, end));
                lemma_options_at_shift(prefix, t, end);
            }
        }
    }
}

/// Each option is of the form that the grammar gives it.
pub open spec fn options_well_formed(options: Seq<(Seq<char>, Seq<char>)>) -> bool {
    forall|i: int|
        0 <= i < options.len() ==> is_proxmox_id((#[trigger] options[i]).0) && is_option_value(
            options[i].1,
        )
}

/// A list of options as it is written is read back as that list, followed
/// by what is read from the text behind it.
pub proof fn lemma_options_at_text(options: Seq<(Seq<char>, Seq<char>)>, tail: Seq<char>)
    requires
        options_well_formed(options),
        tail.len() > 0 ==> tail[0] == ',',
    ensures
        options_at(options_text(options) + tail, 0) == match options_at(tail, 0) {
            Some(rest) => Some(options + rest),
            None => None,
        },
    decreases options.len(),
{
    if options.len() == 0 {
        assert(options_text(options) + tail =~= tail);
        match options_at(tail, 0) {
            Some(rest) => {
                assert(options + rest =~= rest);
            },
            None => {},
        }
    } else {
        let name = options[0].0;
        let value = options[0].1;
        let rest = options.drop_first();
        let head = seq![','] + name + seq!['='] + value;
        let behind = options_text(rest) + tail;
        let s = options_text(options) + tail;
        assert(s =~= head + behind);
        assert(options_well_formed(rest)) by {
            assert forall|i: int| 0 <= i < rest.len() implies is_proxmox_id((#[trigger] rest[i]).0)
                && is_option_value(rest[i].1) by {
                assert(rest[i] == options[i + 1]);
            }
        }
        let eq = 1 + name.len() as int;
        let end = eq + 1 + value.len() as int;
        assert(s[0] == ',');
        assert(s[eq] == '=');
        assert forall|i: int| 1 <= i < eq implies #[trigger] s[i] != '=' by {
            assert(s[i] == name[i - 1]);
            if i > 1 {
                assert(is_id_rest(name[i - 1]));
            }
        }
        lemma_next_stop_at(s, 1, '=', '=', eq);
        assert(s.subrange(1, eq) =~= name);
        assert forall|i: int| eq + 1 <= i < end implies #[trigger] s[i] != ',' by {
            assert(s[i] == value[i - eq - 1]);
        }
        assert(end < s.len() ==> s[end] == ',') by {
            if end < s.len() {
                assert(s[end] == behind[0]);
                if rest.len() > 0 {
                    assert(options_text(rest)[0] == ',');
                } else {
                    assert(options_text(rest) + tail =~= tail);
                }
            }
        }
        lemma_next_stop_at(s, eq + 1, ',', ',', end);
        assert(s.subrange(eq + 1, end) =~= value);
        lemma_options_at_shift(head, behind, 0);
        lemma_options_at_text(rest, tail);
        match options_at(tail, 0) {
            Some(more) => {
                assert(seq![(name, value)] + (rest + more) =~= options + more);
            },
            None => {},
        }
    }
}

/// What is read as a list of options is of the form that the grammar gives
/// it, and is what is written there.
pub proof fn lemma_options_at_sound(s: Seq<char>, from: int)
    requires
        0 <= from <= s.len(),
        options_at(s, from) is Some,
    ensures
        options_well_formed(options_at(s, from)->0),
        options_text(options_at(s, from)->0) == s.subrange(from, s.len() as int),
    decreases s.len() - from,
{
    let options = options_at(s, from)->0;
    if from >= s.len() {
        assert(s.subrange(from, s.len() as int) =~= Seq::<char>::empty());
    } else {
        let eq = next_stop(s, from + 1, '=', '=');
        lemma_next_stop(s, from + 1, '=', '=');
        let end = next_stop(s, eq + 1, ',', ',');
        lemma_next_stop(s, eq + 1, ',', ',');
        lemma_options_at_sound(s, end);
        let rest = options_at(s, end)->0;
        let name = s.subrange(from + 1, eq);
        let value = s.subrange(eq + 1, end);
        assert(options =~= seq![(name, value)] + rest);
        assert(options.drop_first() =~= rest);
        assert(is_option_value(value));
        assert forall|i: int| 0 <= i < options.len() implies is_proxmox_id((#[trigger] options[i]).0)
            && is_option_value(options[i].1) by {
            if i > 0 {
                assert(options[i] == rest[i - 1]);
            }
        }
        assert(options_text(options) =~= s.subrange(from, s.len() as int));
    }
}

/// A definition of the form that the grammar gives is read back, from the
/// text that it is written as, as itself: every text of the grammar is
/// accepted, and in one way only.
pub proof fn lemma_definition_of_text(d: DiskDefinition)
    requires
        d.well_formed(),
    ensures
        disk_definition(d.text()) == Some(d),
{
    lemma_definition_with_tail(d, Seq::empty());
    assert(d.text() + Seq::<char>::empty() =~= d.text());
    assert(d.options + Seq::<(Seq<char>, Seq<char>)>::empty() =~= d.options);
}

/// The text of a definition with a list of options behind it is read as
/// the definition with those options more; with anything else behind it
/// that starts with a comma, it is refused.
pub proof fn lemma_definition_with_tail(d: DiskDefinition, tail: Seq<char>)
    requires
        d.well_formed(),
        tail.len() > 0 ==> tail[0] == ',',
    ensures
        disk_definition(d.text() + tail) == match options_at(tail, 0) {
            Some(more) => Some(
                DiskDefinition { storage: d.storage, volume: d.volume, options: d.options + more },
            ),
            None => None,
        },
{
    let front = d.storage + seq![':'] + d.volume;
    let behind = options_text(d.options) + tail;
    let s = d.text() + tail;
    assert(s =~= front + behind);
    let colon = d.storage.len() as int;
    let end = colon + 1 + d.volume.len();
    assert(s[colon] == ':');
    assert forall|i: int| 0 <= i < colon implies #[trigger] s[i] != ':' by {
        assert(s[i] == d.storage[i]);
        if i > 0 {
            assert(is_id_rest(d.storage[i]));
        }
    }
    lemma_next_stop_at(s, 0, ':', ':', colon);
    assert(s.subrange(0, colon) =~= d.storage);
    assert forall|i: int| colon + 1 <= i < end implies #[trigger] s[i] != ':' && s[i] != ',' by {
        assert(s[i] == d.volume[i - colon - 1]);
    }
    assert(end < s.len() ==> s[end] == ',') by {
        if end < s.len() {
            assert(s[end] == behind[0]);
            if d.options.len() > 0 {
                assert(options_text(d.options)[0] == ',');
            } else {
                assert(behind =~= tail);
            }
        }
    }
    lemma_next_stop_at(s, colon + 1, ':', ',', end);
    assert(s.subrange(colon + 1, end) =~= d.volume);
    lemma_options_at_shift(front, behind, 0);
    lemma_options_at_text(d.options, tail);
}

/// With no options written, a colon behind the volume is one colon too
/// many: the text is refused.
pub proof fn lemma_second_colon_refused(storage: Seq<char>, volume: Seq<char>, tail: Seq<char>)
    requires
        is_proxmox_id(storage),
        is_volume_id(volume),
    ensures
        disk_definition(storage + seq![':'] + volume + seq![':'] + tail) is None,
{
    let s = storage + seq![':'] + volume + seq![':'] + tail;
    let colon = storage.len() as int;
    let end = colon + 1 + volume.len();
    assert(s[colon] == ':');
    assert forall|i: int| 0 <= i < colon implies #[trigger] s[i] != ':' by {
        assert(s[i] == storage[i]);
        if i > 0 {
            assert(is_id_rest(storage[i]));
        }
    }
    lemma_next_stop_at(s, 0, ':', ':', colon);
    assert forall|i: int| colon + 1 <= i < end implies #[trigger] s[i] != ':' && s[i] != ',' by {
        assert(s[i] == volume[i - colon - 1]);
    }
    assert(s[end] == ':');
    lemma_next_stop_at(s, colon + 1, ':', ',', end);
}

/// What a text is read as is of the form that the grammar gives, and the
/// text is that definition as it is written: nothing is accepted but the
/// texts of the grammar.
pub proof fn lemma_text_of_definition(s: Seq<char>)
    requires
        disk_definition(s) is Some,
    ensures
        disk_definition(s)->0.well_formed(),
        disk_definition(s)->0.text() == s,
{
    let d = disk_definition(s)->0;
    let colon = next_stop(s, 0, ':', ':');
    lemma_next_stop(s, 0, ':', ':');
    let end = next_stop(s, colon + 1, ':', ',');
    lemma_next_stop(s, colon + 1, ':', ',');
    lemma_options_at_sound(s, end);
    assert(is_volume_id(d.volume));
    assert(d.text() =~= s);
}

/// The texts of the grammar: a text is one of them if it is a definition of
/// the form that the grammar gives, as it is written.
pub open spec fn is_disk_text(s: Seq<char>) -> bool {
    exists|d: DiskDefinition| d.well_formed() && #[trigger] d.text() == s
}

/// The texts that are read as a definition are the texts of the grammar.
pub proof fn lemma_disk_text(s: Seq<char>)
    ensures
        is_disk_text(s) <==> disk_definition(s) is Some,
{
    if disk_definition(s) is Some {
        lemma_text_of_definition(s);
        assert(disk_definition(s)->0.text() == s);
    }
    if is_disk_text(s) {
        let d = choose|d: DiskDefinition| d.well_formed() && #[trigger] d.text() == s;
        lemma_definition_of_text(d);
    }
}

/// The options of a mapping, written in the order of `names`.
pub open spec fn options_in_order(names: Seq<Seq<char>>, options: Map<Seq<char>, Seq<char>>) -> Seq<
    (Seq<char>, Seq<char>),
> {
    Seq::new(names.len(), |i: int| (names[i], options[names[i]]))
}

/// Reading a definition and writing out its storage, its volume and its
/// options, each option once and in any order of the names that is agreed
/// on, gives a text that is read as the same storage, volume and options.
pub proof fn lemma_disk_round_trip(s: Seq<char>, names: Seq<Seq<char>>)
    requires
        disk_definition(s) is Some,
        names.no_duplicates(),
        forall|name: Seq<char>| #[trigger]
            names.contains(name) <==> options_map(disk_definition(s)->0.options).contains_key(name),
    ensures
        ({
            let d = disk_definition(s)->0;
            let written = DiskDefinition {
                storage: d.storage,
                volume: d.volume,
                options: options_in_order(names, options_map(d.options)),
            };
            &&& disk_definition(written.text()) == Some(written)
            &&& options_map(written.options) == options_map(d.options)
        }),
{
    let d = disk_definition(s)->0;
    let m = options_map(d.options);
    let again = options_in_order(names, m);
    let written = DiskDefinition { storage: d.storage, volume: d.volume, options: again };
    lemma_text_of_definition(s);
    assert forall|i: int| 0 <= i < again.len() implies is_proxmox_id((#[trigger] again[i]).0)
        && is_option_value(again[i].1) by {
        assert(names.contains(names[i]));
        lemma_options_map_entry(d.options, names[i]);
    }
    lemma_definition_of_text(written);
    assert(distinct_names(again)) by {
        assert forall|i: int, j: int| 0 <= i < j < again.len() implies (#[trigger] again[i]).0 != (
        #[trigger] again[j]).0 by {
            assert(names[i] != names[j]);
        }
    }
    assert(options_map(again) =~= m) by {
        assert forall|k: Seq<char>| options_map(again).contains_key(k) <==> m.contains_key(k) by {
            lemma_options_map_names(again, k);
            if options_map(again).contains_key(k) {
                let i = choose|i: int| 0 <= i < again.len() && (#[trigger] again[i]).0 == k;
                assert(names.contains(names[i]));
            }
            if m.contains_key(k) {
                assert(names.contains(k));
                let i = choose|i: int| 0 <= i < names.len() && names[i] == k;
                assert(again[i].0 == k);
            }
        }
        assert forall|k: Seq<char>| options_map(again).contains_key(k) implies options_map(again)[k]
            == m[k] by {
            lemma_options_map_names(again, k);
            let i = choose|i: int| 0 <= i < again.len() && (#[trigger] again[i]).0 == k;
            lemma_options_map_value(again, i);
        }
    }
}

fn find_stop(s: &[char], from: usize, a: char, b: char) -> (r: usize)
    requires
        from <= s@.len(),
    ensures
        r == next_stop(s@, from as int, a, b),
        from <= r <= s@.len(),
{
    let mut i: usize = from;
    while i < s.len()
        invariant
            from <= i <= s@.len(),
            next_stop(s@, from as int, a, b) == next_stop(s@, i as int, a, b),
        decreases s@.len() - i,
    {
        if s[i] == a || s[i] == b {
            return i;
        }
        i += 1;
    }
    i
}

fn id_first(c: char) -> (r: bool)
    ensures
        r == is_id_first(c),
{
    ('a' <= c && c <= 'z') || ('0' <= c && c <= '9')
}

fn id_rest(c: char) -> (r: bool)
    ensures
        r == is_id_rest(c),
{
    id_first(c) || c == '_' || c == '-'
}

fn is_id(s: &[char], from: usize, to: usize) -> (r: bool)
    requires
        from <= to <= s@.len(),
    ensures
        r == is_proxmox_id(s@.subrange(from as int, to as int)),
{
    let ghost part = s@.subrange(from as int, to as int);
    if from == to {
        return false;
    }
    assert(part[0] == s@[from as int]);
    if !id_first(s[from]) {
        return false;
    }
    let mut i: usize = from + 1;
    while i < to
        invariant
            from < i <= to <= s@.len(),
            part == s@.subrange(from as int, to as int),
            forall|j: int| 0 < j < i - from ==> is_id_rest(#[trigger] part[j]),
        decreases to - i,
    {
        assert(part[i - from] == s@[i as int]);
        if !id_rest(s[i]) {
            return false;
        }
        i += 1;
    }
    true
}

/// Parse a Proxmox VE disk description as found in the VM configuration.
///
/// The result is the storage, the volume and the options of the
/// description. A text that is no description by the grammar, or that goes
/// on after one, is refused.
pub fn disk(input: &str) -> (r: Result<(String, String, DiskOptions), Error>)
    ensures
        r is Ok <==> is_disk_text(input@),
        match r {
            Ok((storage, volume, options)) => {
                &&& disk_definition(input@) matches Some(d)
                &&& storage@ == d.storage
                &&& volume@ == d.volume
                &&& options@ == options_map(d.options)
                &&& options.pairs() == options_list(d.options)
            },
            Err(e) => {
                &&& disk_definition(input@) is None
                &&& e@ == ErrorView::Api(ApiErrorView::DiskDefinition(input@))
            },
        },
{
    proof {
        lemma_disk_text(input@);
    }
    let chars = chars_of(input);
    let s = chars.as_slice();
    let len = s.len();
    let colon = find_stop(s, 0, ':', ':');
    if colon >= len || !is_id(s, 0, colon) {
        return Err(Error::Api(ApiError::DiskDefinition(String::from_str(input))));
    }
    let end = find_stop(s, colon + 1, ':', ',');
    let storage = String::from_str(input.substring_char(0, colon));
    let volume = String::from_str(input.substring_char(colon + 1, end));
    let mut options = DiskOptions::new();
    let ghost mut done: Seq<(Seq<char>, Seq<char>)> = Seq::empty();
    let mut pos: usize = end;
    while pos < len
        invariant
            s@ == input@,
            len == s@.len(),
            is_disk_text(input@) <==> disk_definition(input@) is Some,
            colon < len,
            colon == next_stop(s@, 0, ':', ':'),
            is_proxmox_id(s@.subrange(0, colon as int)),
            end == next_stop(s@, colon + 1, ':', ','),
            storage@ == s@.subrange(0, colon as int),
            volume@ == s@.subrange(colon + 1, end as int),
            end <= pos <= len,
            options@ == options_map(done),
            options.pairs() == options_list(done),
            options_at(s@, end as int) == match options_at(s@, pos as int) {
                Some(rest) => Some(done + rest),
                None => None,
            },
        decreases len - pos,
    {
        if s[pos] != ',' {
            return Err(Error::Api(ApiError::DiskDefinition(String::from_str(input))));
        }
        let eq = find_stop(s, pos + 1, '=', '=');
        if eq >= len || !is_id(s, pos + 1, eq) {
            return Err(Error::Api(ApiError::DiskDefinition(String::from_str(input))));
        }
        let stop = find_stop(s, eq + 1, ',', ',');
        let name = String::from_str(input.substring_char(pos + 1, eq));
        let value = String::from_str(input.substring_char(eq + 1, stop));
        proof {
            let item = (name@, value@);
            let grown = done.push(item);
            assert(grown.drop_last() =~= done);
            assert forall|rest: Seq<(Seq<char>, Seq<char>)>| done + (seq![item] + rest) == grown
                + rest by {
                assert(done + (seq![item] + rest) =~= grown + rest);
            }
            done = grown;
        }
        options = options.insert(name, value);
        pos = stop;
    }
    proof {
        assert(done + Seq::<(Seq<char>, Seq<char>)>::empty() =~= done);
    }
    Ok((storage, volume, options))
}

/// Reading a definition and writing out what is held of it, the storage,
/// the volume and each option once in the order in which the names first
/// came, gives a text that is read as the same storage, volume and
/// options, and of which the same is held.
pub proof fn lemma_held_round_trip(s: Seq<char>)
    requires
        disk_definition(s) is Some,
    ensures
        ({
            let d = disk_definition(s)->0;
            let held = DiskDefinition {
                storage: d.storage,
                volume: d.volume,
                options: options_list(d.options),
            };
            &&& disk_definition(held.text()) == Some(held)
            &&& options_map(held.options) == options_map(d.options)
            &&& options_list(held.options) == held.options
        }),
{
    let d = disk_definition(s)->0;
    let list = options_list(d.options);
    let held = DiskDefinition { storage: d.storage, volume: d.volume, options: list };
    lemma_text_of_definition(s);
    lemma_options_list(d.options);
    lemma_options_list_held(list);
    assert forall|i: int| 0 <= i < list.len() implies is_proxmox_id((#[trigger] list[i]).0)
        && is_option_value(list[i].1) by {
        lemma_options_map_value(list, i);
        lemma_options_map_entry(d.options, list[i].0);
    }
    lemma_definition_of_text(held);
}

/// One option more is written behind the options before it.
pub proof fn lemma_options_text_push(options: Seq<(Seq<char>, Seq<char>)>, item: (Seq<char>, Seq<char>))
    ensures
        options_text(options.push(item)) == options_text(options) + (seq![','] + item.0 + seq!['=']
            + item.1),
    decreases options.len(),
{
    let grown = options.push(item);
    if options.len() == 0 {
        assert(grown.drop_first() =~= options);
        assert(options_text(grown) =~= options_text(options) + (seq![','] + item.0 + seq!['=']
            + item.1));
    } else {
        lemma_options_text_push(options.drop_first(), item);
        assert(grown.drop_first() =~= options.drop_first().push(item));
        assert(grown[0] == options[0]);
        assert(options_text(grown) =~= options_text(options) + (seq![','] + item.0 + seq!['=']
            + item.1));
    }
}

/// Writes a disk description: the storage, the volume, and the options in
/// the order in which they are held.
pub fn definition_text(storage: &str, volume: &str, options: &DiskOptions) -> (r: String)
    ensures
        r@ == (DiskDefinition { storage: storage@, volume: volume@, options: options.pairs() }).text(),
{
    let entries = options.entries();
    let ghost pairs = options.pairs();
    let mut text = String::from_str(storage);
    text.append(":");
    text.append(volume);
    proof {
        reveal_strlit(":");
        reveal_strlit(",");
        reveal_strlit("=");
        assert(":"@ =~= seq![':']);
        assert(","@ =~= seq![',']);
        assert("="@ =~= seq!['=']);
        assert(pairs.take(0) =~= Seq::<(Seq<char>, Seq<char>)>::empty());
        assert(text@ =~= storage@ + seq![':'] + volume@ + options_text(pairs.take(0)));
    }
    let mut i: usize = 0;
    while i < entries.len()
        invariant
            i <= entries@.len(),
            pairs == crate::options::pairs_of(entries@),
            ","@ == seq![','],
            "="@ == seq!['='],
            text@ == storage@ + seq![':'] + volume@ + options_text(pairs.take(i as int)),
        decreases entries@.len() - i,
    {
        proof {
            lemma_options_text_push(pairs.take(i as int), pairs[i as int]);
            assert(pairs.take(i as int).push(pairs[i as int]) =~= pairs.take(i + 1));
        }
        text.append(",");
        text.append(entries[i].0.as_str());
        text.append("=");
        text.append(entries[i].1.as_str());
        assert(text@ =~= storage@ + seq![':'] + volume@ + options_text(pairs.take(i + 1)));
        i += 1;
    }
    assert(pairs.take(entries@.len() as int) =~= pairs);
    text
}

} // verus!
