//! Maps from names to values, kept in the order of the names.
use crate::text;
use vstd::prelude::*;

verus! {

/// Where `key` first stands in `s`; the length of `s` where it does not.
pub open spec fn find_entry<T>(s: Seq<(Seq<char>, T)>, key: Seq<char>) -> int
    decreases s.len(),
{
    if s.len() == 0 {
        0
    } else if s[0].0 == key {
        0
    } else {
        1 + find_entry(s.drop_first(), key)
    }
}

/// The value that `s` holds for `key`.
pub open spec fn lookup<T>(s: Seq<(Seq<char>, T)>, key: Seq<char>) -> Option<T> {
    let i = find_entry(s, key);
    if 0 <= i < s.len() {
        Some(s[i].1)
    } else {
        None
    }
}

/// Whether the names of `s` ascend, so that none occurs twice.
pub open spec fn ascending<T>(s: Seq<(Seq<char>, T)>) -> bool {
    forall|i: int, j: int| 0 <= i < j < s.len() ==> text::text_before(s[i].0, s[j].0)
}

/// `s` with `value` for `key`: in place of the value that it had, or as a new
/// entry where its name belongs.
pub open spec fn with_entry<T>(s: Seq<(Seq<char>, T)>, key: Seq<char>, value: T) -> Seq<
    (Seq<char>, T),
>
    decreases s.len(),
{
    if s.len() == 0 || text::text_before(key, s[0].0) {
        seq![(key, value)] + s
    } else if s[0].0 == key {
        s.update(0, (key, value))
    } else {
        seq![s[0]] + with_entry(s.drop_first(), key, value)
    }
}

/// `s` with each entry of `more`, one after the other.
pub open spec fn with_entries<T>(
    s: Seq<(Seq<char>, T)>,
    more: Seq<(Seq<char>, T)>,
) -> Seq<(Seq<char>, T)>
    decreases more.len(),
{
    if more.len() == 0 {
        s
    } else {
        with_entry(with_entries(s, more.drop_last()), more.last().0, more.last().1)
    }
}

/// The first entry with a name is where it is found.
pub proof fn lemma_find_entry<T>(s: Seq<(Seq<char>, T)>, key: Seq<char>, i: int)
    requires
        0 <= i <= s.len(),
        forall|j: int| 0 <= j < i ==> (#[trigger] s[j]).0 != key,
        i < s.len() ==> s[i].0 == key,
    ensures
        find_entry(s, key) == i,
    decreases s.len(),
{
    if i > 0 {
        let t = s.drop_first();
        lemma_find_entry(t, key, i - 1);
    }
}

/// What is found is an entry with the name, and no earlier one has it.
pub proof fn lemma_found_entry<T>(s: Seq<(Seq<char>, T)>, key: Seq<char>)
    ensures
        0 <= find_entry(s, key) <= s.len(),
        find_entry(s, key) < s.len() ==> s[find_entry(s, key)].0 == key,
        forall|j: int| 0 <= j < find_entry(s, key) ==> (#[trigger] s[j]).0 != key,
    decreases s.len(),
{
    if s.len() > 0 && s[0].0 != key {
        let t = s.drop_first();
        lemma_found_entry(t, key);
        assert forall|j: int| 0 <= j < find_entry(s, key) implies (#[trigger] s[j]).0 != key by {
            if j > 0 {
                assert(t[j - 1] == s[j]);
            }
        }
    }
}

/// A map gives back what was entered last under a name, and keeps what it
/// holds under every other name.
pub proof fn law_entry_is_read_back<T>(
    s: Seq<(Seq<char>, T)>,
    key: Seq<char>,
    value: T,
    asked: Seq<char>,
)
    ensures
        lookup(with_entry(s, key, value), asked) == if asked == key {
            Some(value)
        } else {
            lookup(s, asked)
        },
    decreases s.len(),
{
    let r = with_entry(s, key, value);
    if s.len() == 0 || text::text_before(key, s[0].0) {
        assert(r.drop_first() =~= s);
        lemma_found_entry(s, asked);
    } else if s[0].0 == key {
        assert(r.drop_first() =~= s.drop_first());
        lemma_found_entry(s.drop_first(), asked);
    } else {
        let t = s.drop_first();
        law_entry_is_read_back(t, key, value, asked);
        assert(r.drop_first() =~= with_entry(t, key, value));
        lemma_found_entry(t, asked);
        lemma_found_entry(with_entry(t, key, value), asked);
    }
}

/// Entering a value keeps the names of a map in ascending order.
pub proof fn law_entry_keeps_order<T>(s: Seq<(Seq<char>, T)>, key: Seq<char>, value: T)
    requires
        ascending(s),
    ensures
        ascending(with_entry(s, key, value)),
        forall|i: int|
            0 <= i < with_entry(s, key, value).len() ==> {
                let name = (#[trigger] with_entry(s, key, value)[i]).0;
                name == key || exists|j: int| 0 <= j < s.len() && s[j].0 == name
            },
    decreases s.len(),
{
    let r = with_entry(s, key, value);
    if s.len() == 0 || text::text_before(key, s[0].0) {
        assert forall|i: int, j: int| 0 <= i < j < r.len() implies text::text_before(
            r[i].0,
            r[j].0,
        ) by {
            if i == 0 {
                if j > 1 {
                    text::lemma_text_order_transitive(key, s[0].0, s[j - 1].0);
                }
            }
        }
    } else if s[0].0 != key {
        law_entry_keeps_order(s.drop_first(), key, value);
        text::lemma_text_order_total(key, s[0].0);
    }
}

proof fn lemma_with_entry_after<T>(s: Seq<(Seq<char>, T)>, key: Seq<char>, value: T, p: int)
    requires
        0 <= p <= s.len(),
        forall|j: int| 0 <= j < p ==> text::text_before((#[trigger] s[j]).0, key),
    ensures
        with_entry(s, key, value) == s.take(p) + with_entry(s.skip(p), key, value),
    decreases p,
{
    if p == 0 {
        assert(s.skip(0) =~= s);
    } else {
        let t = s.drop_first();
        text::lemma_text_order_total(s[0].0, key);
        lemma_with_entry_after(t, key, value, p - 1);
        assert(t.skip(p - 1) =~= s.skip(p));
    }
}

/// A name that comes after all others is entered at the end.
pub proof fn lemma_entry_at_end<T>(s: Seq<(Seq<char>, T)>, key: Seq<char>, value: T)
    requires
        forall|j: int| 0 <= j < s.len() ==> text::text_before((#[trigger] s[j]).0, key),
    ensures
        with_entry(s, key, value) == s.push((key, value)),
{
    let n = s.len() as int;
    lemma_with_entry_after(s, key, value, n);
}

/// The entries of a vector of pairs.
pub open spec fn pairs<V: View>(entries: Seq<(String, V)>) -> Seq<(Seq<char>, V::V)> {
    entries.map_values(|e: (String, V)| (e.0@, e.1@))
}

/// A map from names to values, in the order of the names.
///
/// Its view is the sequence of its entries.
#[derive(Debug, PartialEq)]
pub struct NameMap<V> {
    entries: Vec<(String, V)>,
}

impl<V: View> View for NameMap<V> {
    type V = Seq<(Seq<char>, V::V)>;

    closed spec fn view(&self) -> Seq<(Seq<char>, V::V)> {
        pairs(self.entries@)
    }
}

impl<V> NameMap<V> {
    #[verifier::type_invariant]
    spec fn in_order(&self) -> bool {
        forall|i: int, j: int|
            0 <= i < j < self.entries@.len() ==> text::text_before(
                self.entries@[i].0@,
                self.entries@[j].0@,
            )
    }
}

impl<V: View> NameMap<V> {
    /// A map without entries.
    pub fn new() -> (r: Self)
        ensures
            r@ == Seq::<(Seq<char>, V::V)>::empty(),
    {
        let r = NameMap { entries: Vec::new() };
        r
    }

    /// The number of entries; their names ascend.
    pub fn len(&self) -> (r: usize)
        ensures
            r == self@.len(),
            ascending(self@),
    {
        proof {
            use_type_invariant(self);
        }
        self.entries.len()
    }

    /// Whether there is no entry.
    pub fn is_empty(&self) -> (r: bool)
        ensures
            r == (self@.len() == 0),
    {
        self.entries.len() == 0
    }

    /// The name of the entry at a place.
    pub fn name(&self, i: usize) -> (r: &str)
        requires
            i < self@.len(),
        ensures
            r@ == self@[i as int].0,
    {
        self.entries[i].0.as_str()
    }

    /// The value of the entry at a place.
    pub fn value(&self, i: usize) -> (r: &V)
        requires
            i < self@.len(),
        ensures
            r@ == self@[i as int].1,
    {
        &self.entries[i].1
    }

    /// The value that is held under a name.
    pub fn get(&self, key: &str) -> (r: Option<&V>)
        ensures
            r is Some == (lookup(self@, key@) is Some),
            r matches Some(v) ==> lookup(self@, key@) == Some(v@),
    {
        let mut i: usize = 0;
        while i < self.entries.len()
            invariant
                i <= self.entries@.len(),
                forall|j: int| 0 <= j < i ==> (#[trigger] self@[j]).0 != key@,
            decreases self.entries@.len() - i,
        {
            if text::same(self.entries[i].0.as_str(), key) {
                proof {
                    lemma_find_entry(self@, key@, i as int);
                }
                return Some(&self.entries[i].1);
            }
            i += 1;
        }
        proof {
            lemma_find_entry(self@, key@, i as int);
        }
        None
    }

    /// Enters a value under a name, in place of the value that it had.
    pub fn insert(&mut self, key: String, value: V)
        ensures
            final(self)@ == with_entry(old(self)@, key@, value@),
    {
        proof {
            use_type_invariant(&*self);
        }
        let ghost before = self@;
        let mut entries: Vec<(String, V)> = Vec::new();
        std::mem::swap(&mut entries, &mut self.entries);
        let ghost start = entries@;
        proof {
            law_entry_keeps_order(before, key@, value@);
        }
        let mut p: usize = 0;
        while p < entries.len() && text::before(entries[p].0.as_str(), key.as_str())
            invariant
                p <= entries@.len(),
                entries@ == start,
                forall|j: int| 0 <= j < p ==> text::text_before((#[trigger] start[j]).0@, key@),
            decreases entries@.len() - p,
        {
            p += 1;
        }
        proof {
            lemma_with_entry_after(before, key@, value@, p as int);
        }
        let ghost after = with_entry(before, key@, value@);
        let ghost rest = before.skip(p as int);
        if p < entries.len() && text::same(entries[p].0.as_str(), key.as_str()) {
            let _ = entries.remove(p);
            entries.insert(p, (key, value));
        } else {
            proof {
                if p < entries@.len() {
                    text::lemma_text_order_total(key@, rest[0].0);
                }
            }
            entries.insert(p, (key, value));
        }
        proof {
            assert forall|i: int, j: int| 0 <= i < j < entries@.len() implies text::text_before(
                entries@[i].0@,
                entries@[j].0@,
            ) by {
                assert(after[i].0 == entries@[i].0@ && after[j].0 == entries@[j].0@);
            }
        }
        self.entries = entries;
    }
}

/// A value that can be copied so that the copy has the same view.
pub trait Duplicate: View + Sized {
    /// The copy.
    fn duplicate(&self) -> (r: Self)
        ensures
            r@ == self@,
    ;
}

impl Duplicate for String {
    fn duplicate(&self) -> (r: Self) {
        self.clone()
    }
}

impl Duplicate for crate::number::Real {
    fn duplicate(&self) -> (r: Self) {
        self.clone()
    }
}

impl<V: Duplicate> Clone for NameMap<V> {
    fn clone(&self) -> (r: Self)
        ensures
            r@ == self@,
    {
        proof {
            use_type_invariant(self);
        }
        let mut out: Vec<(String, V)> = Vec::new();
        let mut i: usize = 0;
        while i < self.entries.len()
            invariant
                i <= self.entries@.len(),
                out@.len() == i,
                forall|j: int|
                    0 <= j < i ==> (#[trigger] out@[j]).0@ == self.entries@[j].0@ && out@[j].1@
                        == self.entries@[j].1@,
            decreases self.entries@.len() - i,
        {
            out.push((self.entries[i].0.clone(), self.entries[i].1.duplicate()));
            i += 1;
        }
        NameMap { entries: out }
    }
}

/// Copies every value of a sequence.
pub(crate) fn duplicate_all<T: Duplicate>(items: &Vec<T>) -> (r: Vec<T>)
    ensures
        r@.len() == items@.len(),
        forall|i: int| 0 <= i < r@.len() ==> (#[trigger] r@[i])@ == items@[i]@,
{
    let mut out: Vec<T> = Vec::new();
    let mut i: usize = 0;
    while i < items.len()
        invariant
            i <= items@.len(),
            out@.len() == i,
            forall|j: int| 0 <= j < i ==> (#[trigger] out@[j])@ == items@[j]@,
        decreases items@.len() - i,
    {
        out.push(items[i].duplicate());
        i += 1;
    }
    out
}

/// The view of a value that may be absent.
pub open spec fn option_view<T: View>(value: Option<T>) -> Option<T::V> {
    match value {
        Some(v) => Some(v@),
        None => None,
    }
}

/// The view of a result.
pub open spec fn result_view<T: View, E: View>(result: Result<T, E>) -> Result<T::V, E::V> {
    match result {
        Ok(v) => Ok(v@),
        Err(e) => Err(e@),
    }
}

/// Copies a value that may be absent.
pub(crate) fn duplicate_option<T: Duplicate>(value: &Option<T>) -> (r: Option<T>)
    ensures
        option_view(r) == option_view(*value),
{
    match value {
        Some(v) => Some(v.duplicate()),
        None => None,
    }
}

/// Entering several values gives back the last one entered under each name,
/// and keeps what was held under every name that none was entered under.
pub proof fn law_entries_are_read_back<T>(
    s: Seq<(Seq<char>, T)>,
    more: Seq<(Seq<char>, T)>,
    asked: Seq<char>,
)
    ensures
        forall|i: int|
            0 <= i < more.len() && (#[trigger] more[i]).0 == asked && (forall|j: int|
                i < j < more.len() ==> (#[trigger] more[j]).0 != asked) ==> lookup(
                with_entries(s, more),
                asked,
            ) == Some(more[i].1),
        (forall|i: int| 0 <= i < more.len() ==> (#[trigger] more[i]).0 != asked) ==> lookup(
            with_entries(s, more),
            asked,
        ) == lookup(s, asked),
    decreases more.len(),
{
    if more.len() > 0 {
        let front = more.drop_last();
        law_entries_are_read_back(s, front, asked);
        law_entry_is_read_back(with_entries(s, front), more.last().0, more.last().1, asked);
        assert forall|i: int|
            0 <= i < more.len() && (#[trigger] more[i]).0 == asked && (forall|j: int|
                i < j < more.len() ==> (#[trigger] more[j]).0 != asked) implies lookup(
            with_entries(s, more),
            asked,
        ) == Some(more[i].1) by {
            if i < more.len() - 1 {
                assert(more[more.len() - 1].0 != asked);
                assert(front[i] == more[i]);
                assert forall|j: int| i < j < front.len() implies (#[trigger] front[j]).0
                    != asked by {
                    assert(front[j] == more[j]);
                }
            }
        }
        if forall|i: int| 0 <= i < more.len() ==> (#[trigger] more[i]).0 != asked {
            assert(more[more.len() - 1].0 != asked);
            assert forall|i: int| 0 <= i < front.len() implies (#[trigger] front[i]).0 != asked by {
                assert(front[i] == more[i]);
            }
        }
    }
}

/// A map holds under a name the value of the first entry with that name, and
/// nothing where there is none.
pub proof fn law_first_entry_with_a_name_is_found<T>(s: Seq<(Seq<char>, T)>, key: Seq<char>)
    ensures
        forall|i: int|
            0 <= i < s.len() && (#[trigger] s[i]).0 == key && (forall|j: int|
                0 <= j < i ==> (#[trigger] s[j]).0 != key) ==> lookup(s, key) == Some(s[i].1),
        (forall|i: int| 0 <= i < s.len() ==> (#[trigger] s[i]).0 != key) == (lookup(s, key)
            is None),
{
    lemma_found_entry(s, key);
    let at = find_entry(s, key);
    assert forall|i: int|
        0 <= i < s.len() && (#[trigger] s[i]).0 == key && (forall|j: int|
            0 <= j < i ==> (#[trigger] s[j]).0 != key) implies lookup(s, key) == Some(s[i].1) by {
        if at < i {
            assert(s[at].0 != key);
        }
    }
}

/// The entries of a vector of pairs are its pairs, in their order.
pub proof fn law_pairs_keep_their_order<V: View>(entries: Seq<(String, V)>)
    ensures
        pairs(entries).len() == entries.len(),
        forall|i: int|
            0 <= i < entries.len() ==> #[trigger] pairs(entries)[i] == (
                entries[i].0@,
                entries[i].1@,
            ),
{
}

/// A value under a new name makes a map longer by one entry.
pub proof fn law_new_name_is_one_more_entry<T>(s: Seq<(Seq<char>, T)>, key: Seq<char>, value: T)
    requires
        lookup(s, key) is None,
    ensures
        with_entry(s, key, value).len() == s.len() + 1,
    decreases s.len(),
{
    if s.len() > 0 && !text::text_before(key, s[0].0) {
        lemma_found_entry(s, key);
        let t = s.drop_first();
        lemma_found_entry(t, key);
        law_new_name_is_one_more_entry(t, key, value);
    }
}

/// What may be absent, or may have failed, is seen by the value that it holds.
pub proof fn law_views_keep_what_is_held<T: View, E: View>(value: T, error: E)
    ensures
        option_view(Some(value)) == Some(value@),
        option_view(None::<T>) is None,
        result_view(Ok::<T, E>(value)) == Ok::<T::V, E::V>(value@),
        result_view(Err::<T, E>(error)) == Err::<T::V, E::V>(error@),
{
}

} // verus!
