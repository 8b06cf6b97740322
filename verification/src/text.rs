//! Strings, lists of strings and sets of strings.

use vstd::prelude::*;

verus! {

/// The contents of a list of strings.
pub open spec fn texts(list: Seq<String>) -> Seq<Seq<char>> {
    Seq::new(list.len(), |i: int| list[i]@)
}

/// The parts of a list, one after the other, with `sep` between two of them.
pub open spec fn joined(parts: Seq<Seq<char>>, sep: Seq<char>) -> Seq<char>
    decreases parts.len(),
{
    if parts.len() == 0 {
        Seq::empty()
    } else if parts.len() == 1 {
        parts[0]
    } else {
        joined(parts.drop_last(), sep) + sep + parts.last()
    }
}

/// Every part of a list between a pair of backquotes.
pub open spec fn backquoted(parts: Seq<Seq<char>>) -> Seq<Seq<char>> {
    Seq::new(parts.len(), |i: int| "`"@ + parts[i] + "`"@)
}

/// Whether `text` ends in `suffix`.
pub open spec fn has_suffix(text: Seq<char>, suffix: Seq<char>) -> bool {
    &&& suffix.len() <= text.len()
    &&& text.skip(text.len() - suffix.len()) == suffix
}

/// The characters of a string.
pub fn chars_of(text: &str) -> (chars: Vec<char>)
    ensures
        chars@ == text@,
{
    let mut chars: Vec<char> = Vec::new();
    for c in it: text.chars()
        invariant
            it.seq() == text@,
            chars@ == text@.take(it.index()),
    {
        chars.push(c);
    }
    assert(text@.take(text@.len() as int) =~= text@);
    chars
}

/// Whether `text` ends in `suffix`.
pub fn ends_with(text: &str, suffix: &str) -> (res: bool)
    ensures
        res == has_suffix(text@, suffix@),
{
    let a = chars_of(text);
    let b = chars_of(suffix);
    if a.len() < b.len() {
        return false;
    }
    let start: usize = a.len() - b.len();
    let ghost tail = text@.skip(start as int);
    let mut i: usize = 0;
    while i < b.len()
        invariant
            i <= b.len(),
            start + b.len() == a.len(),
            a@ == text@,
            b@ == suffix@,
            tail == text@.skip(start as int),
            forall|j: int| 0 <= j < i ==> a@[start + j] == b@[j],
        decreases b.len() - i,
    {
        if a[start + i] != b[i] {
            assert(tail[i as int] != suffix@[i as int]);
            return false;
        }
        i += 1;
    }
    assert(tail =~= suffix@);
    true
}

/// Whether a list holds a string.
pub fn list_contains(list: &Vec<String>, text: &String) -> (res: bool)
    ensures
        res == texts(list@).contains(text@),
{
    let mut i: usize = 0;
    while i < list.len()
        invariant
            i <= list.len(),
            forall|j: int| 0 <= j < i ==> list@[j]@ != text@,
        decreases list.len() - i,
    {
        if list[i] == *text {
            assert(texts(list@)[i as int] == text@);
            return true;
        }
        i += 1;
    }
    false
}

/// A copy of a list.
pub fn copy_list(list: &Vec<String>) -> (res: Vec<String>)
    ensures
        res@ == list@,
{
    let res = list.clone();
    assert(res@ =~= list@);
    res
}

/// The strings of a list, one after the other, with `sep` between two of them.
pub fn join(list: &Vec<String>, sep: &str) -> (res: String)
    ensures
        res@ == joined(texts(list@), sep@),
{
    let mut res = String::new();
    let ghost parts = texts(list@);
    let mut i: usize = 0;
    while i < list.len()
        invariant
            i <= list.len(),
            parts == texts(list@),
            res@ == joined(parts.take(i as int), sep@),
        decreases list.len() - i,
    {
        proof {
            assert(parts.take(i + 1).drop_last() =~= parts.take(i as int));
        }
        if i > 0 {
            res.append(sep);
        }
        res.append(list[i].as_str());
        assert(res@ =~= joined(parts.take(i + 1), sep@));
        i += 1;
    }
    assert(parts.take(parts.len() as int) =~= parts);
    res
}

/// Every string of a list between a pair of backquotes.
pub fn backquote_all(list: &Vec<String>) -> (res: Vec<String>)
    ensures
        texts(res@) == backquoted(texts(list@)),
{
    let mut res: Vec<String> = Vec::new();
    let mut i: usize = 0;
    while i < list.len()
        invariant
            i <= list.len(),
            res.len() == i,
            forall|j: int| 0 <= j < i ==> res@[j]@ == "`"@ + list@[j]@ + "`"@,
        decreases list.len() - i,
    {
        let mut quoted = String::new();
        quoted.append("`");
        quoted.append(list[i].as_str());
        quoted.append("`");
        assert(quoted@ =~= "`"@ + list@[i as int]@ + "`"@);
        res.push(quoted);
        i += 1;
    }
    assert(texts(res@) =~= backquoted(texts(list@)));
    res
}

/// The elements of a prefix that is one longer.
pub proof fn lemma_take_to_set(parts: Seq<Seq<char>>, i: int)
    requires
        0 <= i < parts.len(),
    ensures
        parts.take(i + 1).to_set() == parts.take(i).to_set().insert(parts[i]),
{
    let more = parts.take(i + 1);
    let less = parts.take(i);
    assert(more =~= less.push(parts[i]));
    assert forall|x: Seq<char>| more.to_set().contains(x) == less.to_set().insert(
        parts[i],
    ).contains(x) by {
        if less.contains(x) {
            let k = choose|k: int| 0 <= k < less.len() && less[k] == x;
            assert(more[k] == x);
        }
        assert(more[i] == parts[i]);
    }
    assert(more.to_set() =~= less.to_set().insert(parts[i]));
}

/// A set of strings.
#[derive(Debug)]
pub struct StringSet {
    items: Vec<String>,
}

impl View for StringSet {
    type V = Set<Seq<char>>;

    closed spec fn view(&self) -> Set<Seq<char>> {
        texts(self.items@).to_set()
    }
}

impl StringSet {
    /// No string occurs twice.
    pub closed spec fn wf(self) -> bool {
        texts(self.items@).no_duplicates()
    }

    /// The empty set.
    pub fn new() -> (set: StringSet)
        ensures
            set.wf(),
            set@ == Set::<Seq<char>>::empty(),
    {
        let set = StringSet { items: Vec::new() };
        assert(set@ =~= Set::<Seq<char>>::empty());
        set
    }

    /// Whether the set holds a string.
    pub fn contains(&self, text: &String) -> (res: bool)
        ensures
            res == self@.contains(text@),
    {
        list_contains(&self.items, text)
    }

    /// Puts a string into the set, and tells whether it was missing.
    pub fn insert(&mut self, text: String) -> (fresh: bool)
        requires
            old(self).wf(),
        ensures
            final(self).wf(),
            final(self)@ == old(self)@.insert(text@),
            fresh == !old(self)@.contains(text@),
    {
        let ghost before = texts(self.items@);
        if list_contains(&self.items, &text) {
            assert(self@ =~= old(self)@.insert(text@));
            return false;
        }
        self.items.push(text);
        proof {
            let after = texts(self.items@);
            assert(after =~= before.push(text@));
            assert forall|s: Seq<char>| self@.contains(s) == old(self)@.insert(text@).contains(s) by {
                if before.contains(s) {
                    let k = choose|k: int| 0 <= k < before.len() && before[k] == s;
                    assert(after[k] == s);
                }
                assert(after[before.len() as int] == text@);
            }
            assert(self@ =~= old(self)@.insert(text@));
        }
        true
    }

    /// Puts the strings of a list into the set.
    pub fn extend(&mut self, list: &Vec<String>)
        requires
            old(self).wf(),
        ensures
            final(self).wf(),
            final(self)@ == old(self)@.union(texts(list@).to_set()),
    {
        let ghost before = self@;
        let ghost parts = texts(list@);
        let mut i: usize = 0;
        assert(self@ =~= before.union(parts.take(0).to_set()));
        while i < list.len()
            invariant
                i <= list.len(),
                parts == texts(list@),
                self.wf(),
                self@ == before.union(parts.take(i as int).to_set()),
            decreases list.len() - i,
        {
            self.insert(list[i].clone());
            proof {
                lemma_take_to_set(parts, i as int);
                assert(self@ =~= before.union(parts.take(i + 1).to_set()));
            }
            i += 1;
        }
        assert(parts.take(parts.len() as int) =~= parts);
    }

    /// The strings, each once.
    pub fn items(&self) -> (items: &Vec<String>)
        requires
            self.wf(),
        ensures
            texts(items@).to_set() == self@,
            texts(items@).no_duplicates(),
    {
        &self.items
    }
}

/// The contents of a list are those of its strings one by one.
pub proof fn law_texts(list: Seq<String>)
    ensures
        texts(list).len() == list.len(),
        forall|i: int| 0 <= i < list.len() ==> #[trigger] texts(list)[i] == list[i]@,
{
}

/// Joining two lists joins what joining each of them gives; of one part it gives
/// the part, and of none nothing.
pub proof fn law_joined_piecewise(a: Seq<Seq<char>>, b: Seq<Seq<char>>, sep: Seq<char>)
    ensures
        a.len() == 0 ==> joined(a, sep) == Seq::<char>::empty(),
        a.len() == 1 ==> joined(a, sep) == a[0],
        a.len() > 0 && b.len() > 0 ==> joined(a + b, sep) == joined(a, sep) + sep + joined(b, sep),
    decreases b.len(),
{
    if a.len() > 0 && b.len() > 0 {
        let ab = a + b;
        assert(ab.drop_last() =~= a + b.drop_last());
        assert(ab.last() == b.last());
        if b.len() == 1 {
            assert(a + b.drop_last() =~= a);
        } else {
            law_joined_piecewise(a, b.drop_last(), sep);
            assert(joined(ab, sep) =~= joined(a, sep) + sep + joined(b, sep));
        }
    }
}

/// A part between backquotes is the part with one backquote on either side.
pub proof fn law_backquoted_parts(parts: Seq<Seq<char>>, i: int)
    requires
        0 <= i < parts.len(),
    ensures
        backquoted(parts).len() == parts.len(),
        backquoted(parts)[i].len() == parts[i].len() + 2,
        backquoted(parts)[i].first() == '`',
        backquoted(parts)[i].last() == '`',
        backquoted(parts)[i].drop_first().drop_last() == parts[i],
{
    reveal_strlit("`");
    assert(backquoted(parts)[i].drop_first().drop_last() =~= parts[i]);
}

/// A text ends in another exactly if it is some text with the other behind it.
pub proof fn law_suffix_is_what_is_behind(text: Seq<char>, suffix: Seq<char>)
    ensures
        has_suffix(text, suffix) <==> exists|front: Seq<char>| text == #[trigger] (front + suffix),
{
    if has_suffix(text, suffix) {
        let front = text.take(text.len() - suffix.len());
        assert(text =~= front + suffix);
    }
    if exists|front: Seq<char>| text == #[trigger] (front + suffix) {
        let front = choose|front: Seq<char>| text == #[trigger] (front + suffix);
        assert(text.skip(text.len() - suffix.len()) =~= suffix);
    }
}

} // verus!
