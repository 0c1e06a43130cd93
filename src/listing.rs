//! The directory listing sent over the data channel: one line
//! `DIR|FILE <tab> size <tab> name CRLF` per entry.
use vstd::prelude::*;
use vstd::utf8::{
    char_u32_cast, decode_utf8, encode_utf8, encode_utf8_decode_utf8, encode_utf8_valid_utf8,
    valid_utf8,
};

use crate::text::{
    decimal, fields, is_digit, lemma_decimal_digits, lemma_encoding_avoids, lemma_fields_cons,
    lemma_fields_single, parse_unsigned, parse_unsigned_bytes, push_bytes, push_decimal, same_bytes,
    split_fields, utf8_text, views,
};

verus! {

/// One entry of a directory.
#[derive(Clone, Debug)]
pub struct Entry {
    pub name: String,
    pub is_dir: bool,
    pub size: u64,
}

/// An entry as plain values: name, whether it is a directory, size.
pub type EntrySpec = (Seq<char>, bool, u64);

pub open spec fn entry_of(e: Entry) -> EntrySpec {
    (e.name@, e.is_dir, e.size)
}

pub open spec fn entries_of(v: Seq<Entry>) -> Seq<EntrySpec> {
    v.map_values(|e: Entry| entry_of(e))
}

pub open spec fn dir_word() -> Seq<u8> {
    seq![68u8, 73, 82]
}

pub open spec fn file_word() -> Seq<u8> {
    seq![70u8, 73, 76, 69]
}

/// The listing line of one entry.
pub open spec fn entry_line(e: EntrySpec) -> Seq<u8> {
    (if e.1 {
        dir_word()
    } else {
        file_word()
    }) + seq![9u8] + decimal(e.2 as nat) + seq![9u8] + encode_utf8(e.0) + seq![13u8, 10]
}

/// The listing of a directory: the lines of its entries, in order.
pub open spec fn listing_text(es: Seq<EntrySpec>) -> Seq<u8>
    decreases es.len(),
{
    if es.len() == 0 {
        Seq::empty()
    } else {
        listing_text(es.drop_last()) + entry_line(es.last())
    }
}

/// A line without its trailing carriage return, if it has one.
pub open spec fn without_cr(line: Seq<u8>) -> Seq<u8> {
    if line.len() > 0 && line.last() == 13 {
        line.drop_last()
    } else {
        line
    }
}

/// The entry that a listing line describes: three tab-separated fields,
/// a kind of `FILE` or `DIR`, a decimal size and a UTF-8 name.
pub open spec fn line_entry(line: Seq<u8>) -> Option<EntrySpec> {
    let f = fields(without_cr(line), 9u8);
    if f.len() == 3 && (f[0] == dir_word() || f[0] == file_word()) && parse_unsigned(
        f[1],
        u64::MAX as nat,
    ).is_some() && valid_utf8(f[2]) {
        Some((decode_utf8(f[2]), f[0] == dir_word(), parse_unsigned(f[1], u64::MAX as nat).unwrap() as u64))
    } else {
        None
    }
}

/// The entries of the lines that describe one, in order; other lines are
/// skipped.
pub open spec fn entries_in(lines: Seq<Seq<u8>>) -> Seq<EntrySpec>
    decreases lines.len(),
{
    if lines.len() == 0 {
        Seq::empty()
    } else {
        match line_entry(lines.last()) {
            Some(e) => entries_in(lines.drop_last()).push(e),
            None => entries_in(lines.drop_last()),
        }
    }
}

/// The entries that a received listing describes.
pub open spec fn parse_listing_spec(data: Seq<u8>) -> Seq<EntrySpec> {
    entries_in(fields(data, 10u8))
}

/// A name that a listing line can carry: no tab, no line break.
pub open spec fn listable_name(name: Seq<char>) -> bool {
    forall|i: int| 0 <= i < name.len() ==> #[trigger] name[i] != '\t' && name[i] != '\n' && name[i] != '\r'
}

/// A listing line without its CRLF.
pub open spec fn line_body(e: EntrySpec) -> Seq<u8> {
    (if e.1 {
        dir_word()
    } else {
        file_word()
    }) + seq![9u8] + decimal(e.2 as nat) + seq![9u8] + encode_utf8(e.0)
}

proof fn lemma_name_bytes(name: Seq<char>)
    requires
        listable_name(name),
    ensures
        forall|j: int|
            0 <= j < encode_utf8(name).len() ==> #[trigger] encode_utf8(name)[j] != 9
                && encode_utf8(name)[j] != 10 && encode_utf8(name)[j] != 13,
{
    assert forall|i: int| 0 <= i < name.len() implies (#[trigger] name[i]) as u32 != 9u8 as u32 by {
        if name[i] as u32 == 9 {
            char_u32_cast(name[i], 9);
            char_u32_cast('\t', 9);
        }
    }
    lemma_encoding_avoids(name, 9);
    assert forall|i: int| 0 <= i < name.len() implies (#[trigger] name[i]) as u32 != 10u8 as u32 by {
        if name[i] as u32 == 10 {
            char_u32_cast(name[i], 10);
            char_u32_cast('\n', 10);
        }
    }
    lemma_encoding_avoids(name, 10);
    assert forall|i: int| 0 <= i < name.len() implies (#[trigger] name[i]) as u32 != 13u8 as u32 by {
        if name[i] as u32 == 13 {
            char_u32_cast(name[i], 13);
            char_u32_cast('\r', 13);
        }
    }
    lemma_encoding_avoids(name, 13);
}

proof fn lemma_line_entry(e: EntrySpec)
    requires
        listable_name(e.0),
    ensures
        line_entry(line_body(e).push(13)) == Some(e),
        forall|j: int| 0 <= j < line_body(e).len() ==> #[trigger] line_body(e)[j] != 10 && line_body(e)[j] != 13,
{
    let kind = if e.1 {
        dir_word()
    } else {
        file_word()
    };
    let d = decimal(e.2 as nat);
    let name = encode_utf8(e.0);
    lemma_decimal_digits(e.2 as nat);
    lemma_name_bytes(e.0);
    let body = line_body(e);
    assert(without_cr(body.push(13)) =~= body);
    assert(body =~= kind + seq![9u8] + (d + seq![9u8] + name));
    lemma_fields_cons(kind, d + seq![9u8] + name, 9u8);
    assert forall|j: int| 0 <= j < d.len() implies d[j] != 9u8 by {
        assert(is_digit(d[j]));
    }
    lemma_fields_cons(d, name, 9u8);
    lemma_fields_single(name, 9u8);
    let f = fields(body, 9u8);
    assert(f =~= seq![kind, d, name]);
    assert(dir_word() != file_word()) by {
        assert(dir_word().len() != file_word().len());
    }
    assert(parse_unsigned(d, u64::MAX as nat) == Some(e.2 as nat));
    encode_utf8_valid_utf8(e.0);
    encode_utf8_decode_utf8(e.0);
    assert forall|j: int| 0 <= j < body.len() implies #[trigger] body[j] != 10 && body[j] != 13 by {
        let n1 = kind.len() + 1;
        let n2 = n1 + d.len() + 1;
        if j < kind.len() {
            assert(body[j] == kind[j]);
        } else if j < n1 {
        } else if j < n1 + d.len() {
            assert(body[j] == d[j - n1]);
            assert(is_digit(d[j - n1]));
        } else if j < n2 {
        } else {
            assert(body[j] == name[j - n2]);
        }
    }
}

proof fn lemma_listing_front(e: EntrySpec, rest: Seq<EntrySpec>)
    ensures
        listing_text(seq![e] + rest) == entry_line(e) + listing_text(rest),
    decreases rest.len(),
{
    let es = seq![e] + rest;
    if rest.len() == 0 {
        assert(es.drop_last() =~= Seq::<EntrySpec>::empty());
        assert(es.last() == e);
        assert(listing_text(rest) =~= Seq::<u8>::empty());
        assert(listing_text(es.drop_last()) =~= Seq::<u8>::empty());
        assert(listing_text(es) == listing_text(es.drop_last()) + entry_line(es.last()));
        assert(listing_text(es) =~= entry_line(e));
    } else {
        assert(es.drop_last() =~= seq![e] + rest.drop_last());
        assert(es.last() == rest.last());
        lemma_listing_front(e, rest.drop_last());
        assert(listing_text(es) =~= entry_line(e) + listing_text(rest));
    }
}

/// The lines of a listing, each still ending in its carriage return.
pub open spec fn listing_lines(es: Seq<EntrySpec>) -> Seq<Seq<u8>> {
    es.map_values(|e: EntrySpec| line_body(e).push(13))
}

pub open spec fn all_listable(es: Seq<EntrySpec>) -> bool {
    forall|i: int| 0 <= i < es.len() ==> listable_name(#[trigger] es[i].0)
}

proof fn lemma_listing_split(es: Seq<EntrySpec>)
    requires
        all_listable(es),
    ensures
        fields(listing_text(es), 10u8) == listing_lines(es).push(Seq::<u8>::empty()),
    decreases es.len(),
{
    if es.len() == 0 {
        lemma_fields_single(Seq::<u8>::empty(), 10u8);
        assert(listing_lines(es).push(Seq::<u8>::empty()) =~= seq![Seq::<u8>::empty()]);
    } else {
        let e = es[0];
        let rest = es.drop_first();
        assert(es =~= seq![e] + rest);
        assert(listable_name(e.0));
        assert(all_listable(rest)) by {
            assert forall|i: int| 0 <= i < rest.len() implies listable_name(#[trigger] rest[i].0) by {
                assert(rest[i] == es[i + 1]);
            }
        }
        lemma_listing_front(e, rest);
        lemma_line_entry(e);
        let first = line_body(e).push(13);
        assert(entry_line(e) + listing_text(rest) =~= first + seq![10u8] + listing_text(rest));
        assert forall|j: int| 0 <= j < first.len() implies first[j] != 10u8 by {
            if j < line_body(e).len() {
                assert(first[j] == line_body(e)[j]);
            }
        }
        lemma_fields_cons(first, listing_text(rest), 10u8);
        lemma_listing_split(rest);
        assert(listing_lines(es).push(Seq::<u8>::empty()) =~= seq![first] + listing_lines(rest).push(
            Seq::<u8>::empty(),
        ));
    }
}

proof fn lemma_entries_of_lines(es: Seq<EntrySpec>)
    requires
        all_listable(es),
    ensures
        entries_in(listing_lines(es)) == es,
    decreases es.len(),
{
    if es.len() == 0 {
        assert(listing_lines(es) =~= Seq::<Seq<u8>>::empty());
    } else {
        let init = es.drop_last();
        assert(listing_lines(es).drop_last() =~= listing_lines(init));
        assert(all_listable(init)) by {
            assert forall|i: int| 0 <= i < init.len() implies listable_name(#[trigger] init[i].0) by {
                assert(init[i] == es[i]);
            }
        }
        assert(listable_name(es[es.len() - 1].0));
        lemma_line_entry(es.last());
        lemma_entries_of_lines(init);
        assert(init.push(es.last()) =~= es);
    }
}

/// What the server sends as a listing, the client reads back as the same
/// entries in the same order, for every list of entries whose names hold
/// no tab and no line break.
pub proof fn lemma_listing_round_trip(es: Seq<EntrySpec>)
    requires
        all_listable(es),
    ensures
        parse_listing_spec(listing_text(es)) == es,
{
    lemma_listing_split(es);
    let lines = listing_lines(es).push(Seq::<u8>::empty());
    assert(lines.drop_last() =~= listing_lines(es));
    lemma_fields_single(Seq::<u8>::empty(), 9u8);
    assert(without_cr(Seq::<u8>::empty()) =~= Seq::<u8>::empty());
    assert(line_entry(lines.last()).is_none());
    lemma_entries_of_lines(es);
}

/// The listing of `entries`, in their order.
pub fn format_listing(entries: &Vec<Entry>) -> (r: Vec<u8>)
    ensures
        r@ == listing_text(entries_of(entries@)),
{
    let mut out: Vec<u8> = Vec::new();
    let mut i: usize = 0;
    while i < entries.len()
        invariant
            0 <= i <= entries.len(),
            out@ == listing_text(entries_of(entries@).take(i as int)),
        decreases entries.len() - i,
    {
        let e = &entries[i];
        let ghost before = out@;
        if e.is_dir {
            out.push(68);
            out.push(73);
            out.push(82);
        } else {
            out.push(70);
            out.push(73);
            out.push(76);
            out.push(69);
        }
        out.push(9);
        push_decimal(&mut out, e.size);
        out.push(9);
        push_bytes(&mut out, e.name.as_str().as_bytes());
        out.push(13);
        out.push(10);
        assert(entries_of(entries@).take(i + 1).drop_last() =~= entries_of(entries@).take(i as int));
        assert(out@ =~= before + entry_line(entry_of(*e)));
        i = i + 1;
    }
    assert(entries_of(entries@).take(i as int) =~= entries_of(entries@));
    out
}

/// Reads one listing line.
fn read_line_entry(line: &Vec<u8>) -> (r: Option<Entry>)
    ensures
        match r {
            Some(e) => line_entry(line@) == Some(entry_of(e)),
            None => line_entry(line@).is_none(),
        },
{
    let n = line.len();
    let end = if n > 0 && line[n - 1] == 13 { n - 1 } else { n };
    let body = crate::text::copy_range(line.as_slice(), 0, end);
    assert(body@ =~= without_cr(line@));
    let f = split_fields(body.as_slice(), 9);
    let ghost fs = fields(body@, 9u8);
    if f.len() != 3 {
        return None;
    }
    assert(f@[0]@ == fs[0] && f@[1]@ == fs[1] && f@[2]@ == fs[2]);
    let d: [u8; 3] = [68u8, 73, 82];
    let w: [u8; 4] = [70u8, 73, 76, 69];
    assert(d@ == dir_word());
    assert(w@ == file_word());
    let is_dir = same_bytes(f[0].as_slice(), &d);
    if !is_dir && !same_bytes(f[0].as_slice(), &w) {
        return None;
    }
    let size = match parse_unsigned_bytes(f[1].as_slice(), u64::MAX) {
        Some(v) => v,
        None => {
            return None;
        },
    };
    let name = match utf8_text(f[2].as_slice()) {
        Some(t) => t,
        None => {
            return None;
        },
    };
    Some(Entry { name, is_dir, size })
}

/// The entries that a received listing describes, in order; lines that
/// describe none are skipped.
pub fn parse_listing(data: &[u8]) -> (r: Vec<Entry>)
    ensures
        entries_of(r@) == parse_listing_spec(data@),
{
    let lines = split_fields(data, 10);
    let ghost ls = fields(data@, 10u8);
    let mut out: Vec<Entry> = Vec::new();
    let mut i: usize = 0;
    while i < lines.len()
        invariant
            0 <= i <= lines.len(),
            views(lines@) == ls,
            entries_of(out@) == entries_in(ls.take(i as int)),
        decreases lines.len() - i,
    {
        assert(ls.take(i + 1).drop_last() =~= ls.take(i as int));
        assert(lines@[i as int]@ == ls[i as int]);
        let ghost before = entries_of(out@);
        match read_line_entry(&lines[i]) {
            Some(e) => {
                out.push(e);
                assert(entries_of(out@) =~= before.push(entry_of(e)));
            },
            None => {},
        }
        i = i + 1;
    }
    assert(ls.take(i as int) =~= ls);
    out
}

} // verus!
