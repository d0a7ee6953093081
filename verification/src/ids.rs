//! The table of product names: one line for each pair of device id and
//! revision id, as `device, revision, name` with the two ids in hexadecimal.

use std::str::FromStr;
use vstd::prelude::*;
use crate::error::IdsError;
use crate::utils::{chars_of, has_prefix, number_within, parse_number, starts_with, trim, trimmed};

verus! {

/// One line of the table.
#[derive(Debug)]
pub struct DeviceInfo {
    pub device_id: u16,
    pub revision_id: u16,
    pub product_name: String,
}

/// One line of the table, with the name as its characters.
pub struct IdEntry {
    pub device_id: u16,
    pub revision_id: u16,
    pub product_name: Seq<char>,
}

impl View for DeviceInfo {
    type V = IdEntry;

    open spec fn view(&self) -> IdEntry {
        IdEntry {
            device_id: self.device_id,
            revision_id: self.revision_id,
            product_name: self.product_name@,
        }
    }
}

/// Where `c` first stands in `s`; the length of `s` where it does not.
pub open spec fn first_of(s: Seq<char>, c: char) -> nat
    decreases s.len(),
{
    if s.len() == 0 || s[0] == c {
        0
    } else {
        1 + first_of(s.drop_first(), c)
    }
}

/// The field of a line with this number, counted from 0: what stands
/// between two commas, or between a comma and an end of the line.
pub open spec fn part(s: Seq<char>, n: nat) -> Option<Seq<char>>
    decreases n,
{
    let c = first_of(s, ',');
    if n == 0 {
        Some(s.take(c as int))
    } else if c >= s.len() {
        None
    } else {
        part(s.skip(c as int + 1), (n - 1) as nat)
    }
}

/// A field as a hexadecimal number of 16 bits, white space around it aside.
pub open spec fn hex_field(field: Seq<char>) -> Option<u16> {
    match number_within(trimmed(field), 16, 0xffff) {
        Some(n) => Some(n as u16),
        None => None,
    }
}

/// What a line says: its first three fields, trimmed, the first two read
/// as numbers. A missing field is reported before a field that is no number.
pub open spec fn entry_of(line: Seq<char>) -> Result<IdEntry, IdsError> {
    match (part(line, 0), part(line, 1), part(line, 2)) {
        (Some(device), Some(revision), Some(name)) => match hex_field(device) {
            None => Err(IdsError::InvalidDeviceId),
            Some(device_id) => match hex_field(revision) {
                None => Err(IdsError::InvalidRevisionId),
                Some(revision_id) => Ok(
                    IdEntry { device_id, revision_id, product_name: trimmed(name) },
                ),
            },
        },
        (_, None, _) => Err(IdsError::MissingRevisionId),
        _ => Err(IdsError::MissingProductName),
    }
}

/// What a line adds to the table: nothing where it is a comment, which
/// begins with `#`, and nothing where it names no product.
pub open spec fn line_entries(line: Seq<char>) -> Seq<IdEntry> {
    if has_prefix(line, "#"@) {
        Seq::empty()
    } else {
        match entry_of(line) {
            Ok(e) => seq![e],
            Err(_) => Seq::empty(),
        }
    }
}

/// The table that a text holds, line by line.
pub open spec fn table_of(text: Seq<char>) -> Seq<IdEntry>
    decreases text.len(),
{
    let n = first_of(text, '\n');
    if n >= text.len() {
        line_entries(text)
    } else {
        line_entries(text.take(n as int)) + table_of(text.skip(n as int + 1))
    }
}

/// The index of the first line of the table with these two ids.
pub open spec fn first_match(table: Seq<DeviceInfo>, device_id: u16, revision_id: u16) -> Option<
    int,
>
    decreases table.len(),
{
    if table.len() == 0 {
        None
    } else if first_match(table.drop_last(), device_id, revision_id) is Some {
        first_match(table.drop_last(), device_id, revision_id)
    } else if table.last().device_id == device_id && table.last().revision_id == revision_id {
        Some(table.len() - 1)
    } else {
        None
    }
}

proof fn lemma_first_of(s: Seq<char>, c: char, k: int)
    requires
        0 <= k <= s.len(),
        forall|i: int| 0 <= i < k ==> s[i] != c,
        k < s.len() ==> s[k] == c,
    ensures
        first_of(s, c) == k,
    decreases k,
{
    if k > 0 {
        let rest = s.drop_first();
        assert forall|i: int| 0 <= i < k - 1 implies rest[i] != c by {
            assert(rest[i] == s[i + 1]);
        }
        if k - 1 < rest.len() {
            assert(rest[k - 1] == s[k]);
        }
        assert(s[0] != c);
        lemma_first_of(rest, c, k - 1);
    }
}

proof fn lemma_first_match_stays(table: Seq<DeviceInfo>, device_id: u16, revision_id: u16, k: int)
    requires
        0 <= k <= table.len(),
        first_match(table.take(k), device_id, revision_id) is Some,
    ensures
        first_match(table, device_id, revision_id) == first_match(
            table.take(k),
            device_id,
            revision_id,
        ),
    decreases table.len() - k,
{
    if k == table.len() {
        assert(table.take(k) =~= table);
    } else {
        assert(table.drop_last().take(k) =~= table.take(k));
        lemma_first_match_stays(table.drop_last(), device_id, revision_id, k);
    }
}

/// Where `c` first stands in `v` from position `from` on.
fn find_from(v: &Vec<char>, from: usize, c: char) -> (r: usize)
    requires
        from <= v.len(),
    ensures
        from <= r <= v.len(),
        r - from == first_of(v@.skip(from as int), c),
{
    let ghost rest = v@.skip(from as int);
    let mut r: usize = from;
    while r < v.len() && v[r] != c
        invariant
            from <= r <= v.len(),
            rest == v@.skip(from as int),
            forall|i: int| 0 <= i < r - from ==> rest[i] != c,
        decreases v.len() - r,
    {
        r += 1;
    }
    proof {
        lemma_first_of(rest, c, r - from);
    }
    r
}

/// A field as a hexadecimal number of 16 bits.
fn read_hex(field: &str) -> (r: Option<u16>)
    ensures
        r == hex_field(field@),
{
    match parse_number(trim(field), 16, 0xffff) {
        Some(v) => Some(v as u16),
        None => None,
    }
}

impl DeviceInfo {
    /// Reads one line of the table.
    pub fn parse(line: &str) -> (r: Result<DeviceInfo, IdsError>)
        ensures
            match entry_of(line@) {
                Ok(e) => r matches Ok(info) && info@ == e,
                Err(e) => r matches Err(f) && f == e,
            },
    {
        reveal_with_fuel(part, 3);
        let v = chars_of(line);
        let n = v.len();
        assert(v@.skip(0) =~= v@);
        let c0 = find_from(&v, 0, ',');
        assert(part(line@, 0) == Some(line@.subrange(0, c0 as int)));
        if c0 >= n {
            return Err(IdsError::MissingRevisionId);
        }
        let c1 = find_from(&v, c0 + 1, ',');
        assert(v@.skip(c0 + 1).take(c1 - (c0 + 1)) =~= line@.subrange(c0 + 1, c1 as int));
        assert(part(line@, 1) == Some(line@.subrange(c0 + 1, c1 as int)));
        if c1 >= n {
            assert(part(v@.skip(c0 + 1), 1) is None);
            return Err(IdsError::MissingProductName);
        }
        let c2 = find_from(&v, c1 + 1, ',');
        assert(v@.skip(c0 + 1).skip(c1 - c0) =~= v@.skip(c1 + 1));
        assert(v@.skip(c1 + 1).take(c2 - (c1 + 1)) =~= line@.subrange(c1 + 1, c2 as int));
        assert(part(v@.skip(c0 + 1), 1) == part(v@.skip(c1 + 1), 0));
        assert(part(line@, 2) == Some(line@.subrange(c1 + 1, c2 as int)));
        let device_id = match read_hex(line.substring_char(0, c0)) {
            Some(id) => id,
            None => {
                return Err(IdsError::InvalidDeviceId);
            },
        };
        let revision_id = match read_hex(line.substring_char(c0 + 1, c1)) {
            Some(id) => id,
            None => {
                return Err(IdsError::InvalidRevisionId);
            },
        };
        let product_name = trim(line.substring_char(c1 + 1, c2)).to_owned();
        Ok(DeviceInfo { device_id, revision_id, product_name })
    }
}

impl FromStr for DeviceInfo {
    type Err = IdsError;

    fn from_str(s: &str) -> (r: Result<Self, Self::Err>)
        ensures
            match entry_of(s@) {
                Ok(e) => r matches Ok(info) && info@ == e,
                Err(e) => r matches Err(f) && f == e,
            },
    {
        DeviceInfo::parse(s)
    }
}

/// The entries of a table, with the names as their characters.
pub open spec fn entries(table: Seq<DeviceInfo>) -> Seq<IdEntry> {
    table.map_values(|info: DeviceInfo| info@)
}

/// Reads the table of product names. Comments and lines that name no
/// product are passed over.
pub fn read_amdgpu_ids(contents: &str) -> (r: Vec<DeviceInfo>)
    ensures
        entries(r@) == table_of(contents@),
{
    let v = chars_of(contents);
    let n = v.len();
    let mut out: Vec<DeviceInfo> = Vec::new();
    let mut pos: usize = 0;
    assert(v@.skip(0) =~= v@);
    assert(entries(out@) =~= Seq::<IdEntry>::empty());
    loop
        invariant
            pos <= n,
            n == v.len(),
            v@ == contents@,
            table_of(contents@) =~= entries(out@) + table_of(v@.skip(pos as int)),
        decreases n - pos,
    {
        let ghost rest = v@.skip(pos as int);
        let ghost before = entries(out@);
        let end = find_from(&v, pos, '\n');
        let line = contents.substring_char(pos, end);
        assert(line@ =~= rest.take(end - pos));
        if !starts_with(line, "#") {
            if let Ok(info) = DeviceInfo::parse(line) {
                out.push(info);
            }
        }
        assert(entries(out@) =~= before + line_entries(line@));
        if end >= n {
            assert(line@ =~= rest);
            return out;
        }
        assert(rest.skip(end - pos + 1) =~= v@.skip(end + 1));
        pos = end + 1;
    }
}

/// The name of the product with these two ids: that of the first line of
/// the table that has both.
pub fn get_product_name(table: &Vec<DeviceInfo>, device_id: u16, revision_id: u16) -> (r: Option<
    String,
>)
    ensures
        match first_match(table@, device_id, revision_id) {
            Some(i) => 0 <= i < table@.len() && r == Some(table@[i].product_name),
            None => r is None,
        },
{
    let mut i: usize = 0;
    assert(table@.take(0) =~= Seq::<DeviceInfo>::empty());
    while i < table.len()
        invariant
            i <= table.len(),
            first_match(table@.take(i as int), device_id, revision_id) is None,
        decreases table.len() - i,
    {
        let ghost next = table@.take(i + 1);
        assert(next.drop_last() =~= table@.take(i as int));
        assert(next.last() == table@[i as int]);
        if table[i].device_id == device_id && table[i].revision_id == revision_id {
            proof {
                lemma_first_match_stays(table@, device_id, revision_id, i + 1);
            }
            return Some(table[i].product_name.clone());
        }
        i += 1;
    }
    assert(table@.take(i as int) =~= table@);
    None
}

} // verus!
