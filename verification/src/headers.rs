//! The header multimap: header names, each with the values given for it, in
//! the order in which they were given.

use vstd::prelude::*;
use vstd::string::StringExecFns;
use vstd::utf8::encode_utf8;

verus! {

/// The mathematical value of a header multimap: its entries in the order in
/// which their names first appeared, each a name with its values in the
/// order in which they were appended.
pub type HeaderSeq = Seq<(Seq<char>, Seq<Seq<char>>)>;

/// Whether some entry of `m` has the name `name`. Names are compared as
/// given: no case folding takes place.
pub open spec fn has_name(m: HeaderSeq, name: Seq<char>) -> bool {
    exists|i: int| 0 <= i < m.len() && (#[trigger] m[i]).0 == name
}

/// The position of an entry with the name `name`; meaningful where
/// `has_name` holds, and the only such position in a well-formed multimap.
pub open spec fn index_of(m: HeaderSeq, name: Seq<char>) -> int {
    choose|i: int| 0 <= i < m.len() && (#[trigger] m[i]).0 == name
}

/// The values held for `name`, or `None` where the name is absent.
pub open spec fn lookup(m: HeaderSeq, name: Seq<char>) -> Option<Seq<Seq<char>>> {
    if has_name(m, name) {
        Some(m[index_of(m, name)].1)
    } else {
        None
    }
}

/// The values held for `name`: none where the name is absent.
pub open spec fn values_of(m: HeaderSeq, name: Seq<char>) -> Seq<Seq<char>> {
    match lookup(m, name) {
        Some(values) => values,
        None => Seq::empty(),
    }
}

/// `m` after `value` has been appended for `name`: behind the values that
/// the name already has, or in a new last entry.
pub open spec fn appended(m: HeaderSeq, name: Seq<char>, value: Seq<char>) -> HeaderSeq {
    if has_name(m, name) {
        m.update(index_of(m, name), (name, m[index_of(m, name)].1.push(value)))
    } else {
        m.push((name, seq![value]))
    }
}

/// No name occurs in two entries, and every entry has at least one value.
pub open spec fn well_formed(m: HeaderSeq) -> bool {
    &&& forall|i: int, j: int|
        0 <= i < m.len() && 0 <= j < m.len() && (#[trigger] m[i]).0 == (#[trigger] m[j]).0 ==> i
            == j
    &&& forall|i: int| 0 <= i < m.len() ==> (#[trigger] m[i]).1.len() > 0
}

/// The line that carries one header value to the engine: the bytes of the
/// name, a colon and a space, the bytes of the value, and a closing NUL.
pub open spec fn header_line(name: Seq<char>, value: Seq<char>) -> Seq<u8> {
    encode_utf8(name) + seq![0x3au8, 0x20u8] + encode_utf8(value) + seq![0u8]
}

/// The lines of one entry: one per value, in the order of the values.
pub open spec fn entry_lines(name: Seq<char>, values: Seq<Seq<char>>) -> Seq<Seq<u8>> {
    Seq::new(values.len(), |j: int| header_line(name, values[j]))
}

/// The lines of a multimap: those of its entries, one entry after the
/// other.
pub open spec fn wire_lines(m: HeaderSeq) -> Seq<Seq<u8>>
    decreases m.len(),
{
    if m.len() == 0 {
        Seq::empty()
    } else {
        wire_lines(m.drop_last()) + entry_lines(m.last().0, m.last().1)
    }
}

/// What appending does to a well-formed multimap: it stays well formed,
/// the name that was appended to is held afterwards, and every other name
/// is held exactly where it was held before.
pub proof fn lemma_appended(m: HeaderSeq, name: Seq<char>, value: Seq<char>)
    requires
        well_formed(m),
    ensures
        well_formed(appended(m, name, value)),
        has_name(appended(m, name, value), name),
        forall|other: Seq<char>|
            other != name ==> (has_name(appended(m, name, value), other) <==> has_name(m, other)),
{
    let after = appended(m, name, value);
    if has_name(m, name) {
        let at = index_of(m, name);
        assert(after[at].0 == name);
        assert forall|i: int, j: int|
            0 <= i < after.len() && 0 <= j < after.len() && (#[trigger] after[i]).0 == (
            #[trigger] after[j]).0 implies i == j by {
            assert(after[i].0 == m[i].0);
            assert(after[j].0 == m[j].0);
        }
        assert forall|other: Seq<char>| other != name implies (has_name(after, other)
            <==> has_name(m, other)) by {
            if has_name(m, other) {
                let k = index_of(m, other);
                assert(after[k].0 == other);
            }
            if has_name(after, other) {
                let k = index_of(after, other);
                assert(m[k].0 == other);
            }
        }
    } else {
        assert(after[m.len() as int].0 == name);
        assert forall|i: int, j: int|
            0 <= i < after.len() && 0 <= j < after.len() && (#[trigger] after[i]).0 == (
            #[trigger] after[j]).0 implies i == j by {
            if i < m.len() {
                assert(after[i] == m[i]);
            }
            if j < m.len() {
                assert(after[j] == m[j]);
            }
        }
        assert forall|other: Seq<char>| other != name implies (has_name(after, other)
            <==> has_name(m, other)) by {
            if has_name(m, other) {
                let k = index_of(m, other);
                assert(after[k].0 == other);
            }
            if has_name(after, other) {
                let k = index_of(after, other);
                assert(m[k].0 == other);
            }
        }
    }
}

/// Appending never overwrites: the name that was appended to holds the
/// values that it had, in their order, and the new value behind them.
pub proof fn lemma_lookup_appended(m: HeaderSeq, name: Seq<char>, value: Seq<char>)
    requires
        well_formed(m),
    ensures
        lookup(appended(m, name, value), name) == Some(values_of(m, name).push(value)),
{
    let after = appended(m, name, value);
    lemma_appended(m, name, value);
    let found = index_of(after, name);
    if has_name(m, name) {
        let at = index_of(m, name);
        assert(after[at].0 == name);
        assert(found == at);
    } else {
        assert(after[m.len() as int].0 == name);
        assert(found == m.len());
        assert(seq![value] =~= Seq::<Seq<char>>::empty().push(value));
    }
}

/// Appending touches one name only: every other name holds what it held.
pub proof fn lemma_lookup_appended_other(
    m: HeaderSeq,
    name: Seq<char>,
    value: Seq<char>,
    other: Seq<char>,
)
    requires
        well_formed(m),
        other != name,
    ensures
        lookup(appended(m, name, value), other) == lookup(m, other),
{
    let after = appended(m, name, value);
    lemma_appended(m, name, value);
    if has_name(m, other) {
        let k = index_of(m, other);
        assert(after[k].0 == other);
        assert(after[k] == m[k]);
        assert(index_of(after, other) == k);
    }
}

/// The character sequences of a sequence of strings.
pub open spec fn strings(v: Seq<String>) -> Seq<Seq<char>> {
    v.map_values(|s: String| s@)
}

/// The byte sequences of a sequence of byte vectors.
pub open spec fn byte_lines(v: Seq<Vec<u8>>) -> Seq<Seq<u8>> {
    v.map_values(|line: Vec<u8>| line@)
}

fn push_bytes(dst: &mut Vec<u8>, src: &[u8])
    ensures
        final(dst)@ == old(dst)@ + src@,
{
    let mut k: usize = 0;
    assert(dst@ =~= old(dst)@ + src@.take(0));
    while k < src.len()
        invariant
            k <= src@.len(),
            dst@ == old(dst)@ + src@.take(k as int),
        decreases src@.len() - k,
    {
        dst.push(src[k]);
        assert(dst@ =~= old(dst)@ + src@.take(k + 1));
        k += 1;
    }
    assert(src@.take(k as int) =~= src@);
}

struct Entry {
    name: String,
    values: Vec<String>,
}

/// A multimap from header names to their values.
pub struct HeaderMultimap {
    entries: Vec<Entry>,
}

impl View for HeaderMultimap {
    type V = HeaderSeq;

    closed spec fn view(&self) -> HeaderSeq {
        Seq::new(
            self.entries@.len(),
            |i: int| (self.entries@[i].name@, strings(self.entries@[i].values@)),
        )
    }
}

impl HeaderMultimap {
    /// The invariant of the type.
    pub open spec fn wf(&self) -> bool {
        well_formed(self@)
    }

    /// An empty multimap.
    pub fn new() -> (m: HeaderMultimap)
        ensures
            m@ == Seq::<(Seq<char>, Seq<Seq<char>>)>::empty(),
            m.wf(),
    {
        let m = HeaderMultimap { entries: Vec::new() };
        assert(m@ =~= Seq::<(Seq<char>, Seq<Seq<char>>)>::empty());
        m
    }

    /// Whether the multimap holds no header at all.
    pub fn is_empty(&self) -> (b: bool)
        ensures
            b == (self@.len() == 0),
    {
        self.entries.len() == 0
    }

    /// The lines that carry the headers to the engine: for each entry in
    /// turn, one line per value.
    pub fn lines(&self) -> (out: Vec<Vec<u8>>)
        ensures
            byte_lines(out@) == wire_lines(self@),
    {
        let mut out: Vec<Vec<u8>> = Vec::new();
        let mut i: usize = 0;
        assert(byte_lines(out@) =~= wire_lines(self@.take(0)));
        while i < self.entries.len()
            invariant
                i <= self.entries@.len(),
                byte_lines(out@) == wire_lines(self@.take(i as int)),
            decreases self.entries@.len() - i,
        {
            let entry = &self.entries[i];
            let ghost name = entry.name@;
            let ghost values = strings(entry.values@);
            let ghost before = byte_lines(out@);
            let mut j: usize = 0;
            assert(before + entry_lines(name, values).take(0) =~= before);
            while j < entry.values.len()
                invariant
                    j <= entry.values@.len(),
                    name == entry.name@,
                    values == strings(entry.values@),
                    byte_lines(out@) == before + entry_lines(name, values).take(j as int),
                decreases entry.values@.len() - j,
            {
                let mut line: Vec<u8> = Vec::new();
                push_bytes(&mut line, entry.name.as_str().as_bytes());
                line.push(0x3a);
                line.push(0x20);
                push_bytes(&mut line, entry.values[j].as_str().as_bytes());
                line.push(0);
                let ghost bytes = line@;
                let ghost prev = out@;
                assert(bytes =~= header_line(name, values[j as int]));
                out.push(line);
                proof {
                    assert(byte_lines(out@) =~= byte_lines(prev).push(bytes));
                    assert(entry_lines(name, values).take(j + 1) =~= entry_lines(
                        name,
                        values,
                    ).take(j as int).push(bytes));
                }
                j += 1;
            }
            proof {
                let head = self@.take(i + 1);
                assert(entry_lines(name, values).take(j as int) =~= entry_lines(name, values));
                assert(head.drop_last() =~= self@.take(i as int));
                assert(head.last() == (name, values));
            }
            i += 1;
        }
        assert(self@.take(i as int) =~= self@);
        out
    }

    fn find(&self, name: &String) -> (r: Option<usize>)
        ensures
            match r {
                Some(i) => i < self@.len() && self@[i as int].0 == name@,
                None => !has_name(self@, name@),
            },
    {
        let mut i: usize = 0;
        while i < self.entries.len()
            invariant
                i <= self.entries@.len(),
                forall|j: int| 0 <= j < i ==> (#[trigger] self@[j]).0 != name@,
            decreases self.entries@.len() - i,
        {
            if self.entries[i].name == *name {
                return Some(i);
            }
            i += 1;
        }
        None
    }

    /// The values held for `name`, in the order in which they were
    /// appended, or `None` where the name is absent.
    pub fn lookup(&self, name: &str) -> (r: Option<&[String]>)
        requires
            self.wf(),
        ensures
            match r {
                Some(values) => lookup(self@, name@) == Some(strings(values@)),
                None => lookup(self@, name@) is None,
            },
    {
        let key = String::from_str(name);
        match self.find(&key) {
            Some(i) => {
                assert(self@[i as int].0 == name@);
                Some(self.entries[i].values.as_slice())
            },
            None => None,
        }
    }
}

/// Appends `val` to the values of the header `key`. Nothing that the
/// multimap already holds is replaced or dropped: the value comes behind
/// those that the name already has, and a name that is new gets an entry
/// behind all others.
pub fn append_header(map: &mut HeaderMultimap, key: &str, val: &str)
    requires
        old(map).wf(),
    ensures
        final(map)@ == appended(old(map)@, key@, val@),
        final(map).wf(),
{
    let name = String::from_str(key);
    let value = String::from_str(val);
    match map.find(&name) {
        Some(i) => {
            proof {
                assert(old(map)@[i as int].0 == key@);
                assert(index_of(old(map)@, key@) == i);
            }
            map.entries[i].values.push(value);
            proof {
                assert(strings(map.entries@[i as int].values@) =~= old(map)@[i as int].1.push(
                    val@,
                ));
                assert(map@ =~= appended(old(map)@, key@, val@));
            }
        },
        None => {
            let mut values: Vec<String> = Vec::new();
            values.push(value);
            map.entries.push(Entry { name: name, values: values });
            proof {
                assert(strings(values@) =~= seq![val@]);
                assert(map@ =~= appended(old(map)@, key@, val@));
            }
        },
    }
}

} // verus!
