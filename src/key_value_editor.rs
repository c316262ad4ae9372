//! An ordered, editable list of key/value pairs whose entries keep a stable
//! identity, used for headers, query parameters and environment variables.
use vstd::prelude::*;
use vstd::string::StringExecFns;

verus! {

/// One editable pair. `id` identifies the entry for its whole life.
#[derive(Debug, Clone)]
pub struct KeyValueEntry {
    pub id: usize,
    pub key: String,
    pub value: String,
}

impl KeyValueEntry {
    /// A fresh entry with the given id and an empty key and value.
    pub fn new(id: usize) -> (r: Self)
        ensures
            r.id == id,
            r.key@ == Seq::<char>::empty(),
            r.value@ == Seq::<char>::empty(),
    {
        KeyValueEntry { id, key: String::new(), value: String::new() }
    }
}

/// An edit of a `KeyValueEditor`.
#[derive(Debug, Clone)]
pub enum Message {
    EntryKeyChanged(usize, String),
    EntryValueChanged(usize, String),
    AddEntry,
    RemoveEntry(usize),
}

/// An ordered list of entries and the generator of their ids.
#[derive(Debug, Clone)]
pub struct KeyValueEditor {
    pub entries: Vec<KeyValueEntry>,
    pub next_id: usize,
    pub button_text: String,
}

/// The ids of `entries` are pairwise distinct and all below `bound`.
pub open spec fn ids_fresh_below(entries: Seq<KeyValueEntry>, bound: int) -> bool {
    &&& forall|i: int, j: int|
        0 <= i < entries.len() && 0 <= j < entries.len() && i != j ==> entries[i].id
            != entries[j].id
    &&& forall|i: int| 0 <= i < entries.len() ==> entries[i].id < bound
}

/// The (key, value) views of `entries` whose key is not empty, in order.
pub open spec fn non_empty_pairs(entries: Seq<KeyValueEntry>) -> Seq<(Seq<char>, Seq<char>)>
    decreases entries.len(),
{
    if entries.len() == 0 {
        seq![]
    } else {
        let e = entries.last();
        let rest = non_empty_pairs(entries.drop_last());
        if e.key@.len() > 0 {
            rest.push((e.key@, e.value@))
        } else {
            rest
        }
    }
}

impl Default for KeyValueEditor {
    fn default() -> (r: Self)
        ensures
            is_fresh_editor(r, "Add Entry"@),
    {
        KeyValueEditor::new(String::from_str("Add Entry"))
    }
}

/// The (key, value) views of all of `entries`, in order.
pub open spec fn all_pairs(entries: Seq<KeyValueEntry>) -> Seq<(Seq<char>, Seq<char>)> {
    entries.map_values(|e: KeyValueEntry| (e.key@, e.value@))
}

/// `entries` with every entry whose id is `id` given `key` as its key.
pub open spec fn with_key(entries: Seq<KeyValueEntry>, id: usize, key: String) -> Seq<
    KeyValueEntry,
> {
    entries.map_values(
        |e: KeyValueEntry|
            if e.id == id {
                KeyValueEntry { id: e.id, key: key, value: e.value }
            } else {
                e
            },
    )
}

/// `entries` with every entry whose id is `id` given `value` as its value.
pub open spec fn with_value(entries: Seq<KeyValueEntry>, id: usize, value: String) -> Seq<
    KeyValueEntry,
> {
    entries.map_values(
        |e: KeyValueEntry|
            if e.id == id {
                KeyValueEntry { id: e.id, key: e.key, value: value }
            } else {
                e
            },
    )
}

/// `entries` without those whose id is `id`, order kept.
pub open spec fn without_id(entries: Seq<KeyValueEntry>, id: usize) -> Seq<KeyValueEntry>
    decreases entries.len(),
{
    if entries.len() == 0 {
        seq![]
    } else {
        let rest = without_id(entries.drop_first(), id);
        if entries[0].id == id {
            rest
        } else {
            seq![entries[0]] + rest
        }
    }
}

proof fn lemma_without_absent(entries: Seq<KeyValueEntry>, id: usize)
    requires
        forall|i: int| 0 <= i < entries.len() ==> entries[i].id != id,
    ensures
        without_id(entries, id) == entries,
    decreases entries.len(),
{
    if entries.len() > 0 {
        lemma_without_absent(entries.drop_first(), id);
        assert(seq![entries[0]] + entries.drop_first() =~= entries);
    }
}

/// `e` is a new editor with the caption `caption`: one entry, with id 0 and
/// an empty key and value, and 1 as the next id.
pub open spec fn is_fresh_editor(e: KeyValueEditor, caption: Seq<char>) -> bool {
    &&& e.wf()
    &&& e.entries@.len() == 1
    &&& e.entries@[0].id == 0
    &&& e.entries@[0].key@.len() == 0
    &&& e.entries@[0].value@.len() == 0
    &&& e.next_id == 1
    &&& e.button_text@ == caption
}

/// `new` is `old` after the edit `message`.
pub open spec fn editor_updated(old: KeyValueEditor, message: Message, new: KeyValueEditor) -> bool {
    &&& new.button_text == old.button_text
    &&& match message {
        Message::EntryKeyChanged(id, key) => {
            &&& new.entries@ == with_key(old.entries@, id, key)
            &&& new.next_id == old.next_id
        },
        Message::EntryValueChanged(id, value) => {
            &&& new.entries@ == with_value(old.entries@, id, value)
            &&& new.next_id == old.next_id
        },
        Message::AddEntry => if old.next_id < usize::MAX {
            &&& new.entries@.len() == old.entries@.len() + 1
            &&& new.entries@.drop_last() == old.entries@
            &&& new.entries@.last().id == old.next_id
            &&& new.entries@.last().key@.len() == 0
            &&& new.entries@.last().value@.len() == 0
            &&& new.next_id == old.next_id + 1
        } else {
            new == old
        },
        Message::RemoveEntry(id) => {
            &&& new.entries@ == without_id(old.entries@, id)
            &&& new.next_id == old.next_id
        },
    }
}

impl KeyValueEditor {
    /// The editor is well formed: ids are distinct and below the generator.
    pub open spec fn wf(&self) -> bool {
        ids_fresh_below(self.entries@, self.next_id as int)
    }

    /// An editor holding one empty entry.
    pub fn new(button_text: String) -> (r: Self)
        ensures
            is_fresh_editor(r, button_text@),
    {
        KeyValueEditor { entries: vec![KeyValueEntry::new(0)], next_id: 1, button_text }
    }

    /// The position of the entry with id `id`, if there is one.
    fn position_of(&self, id: usize) -> (r: Option<usize>)
        requires
            self.wf(),
        ensures
            r is Some ==> r->0 < self.entries@.len() && self.entries@[r->0 as int].id == id,
            r is None ==> forall|i: int| 0 <= i < self.entries@.len() ==> self.entries@[i].id != id,
    {
        let mut i: usize = 0;
        while i < self.entries.len()
            invariant
                i <= self.entries@.len(),
                forall|j: int| 0 <= j < i ==> self.entries@[j].id != id,
            decreases self.entries@.len() - i,
        {
            if self.entries[i].id == id {
                return Some(i);
            }
            i = i + 1;
        }
        None
    }

    /// Applies one edit. Edits that name an unknown id change nothing; when
    /// the id generator is exhausted no entry is added.
    pub fn update(&mut self, message: Message)
        requires
            old(self).wf(),
        ensures
            final(self).wf(),
            editor_updated(*old(self), message, *final(self)),
    {
        match message {
            Message::EntryKeyChanged(id, key) => {
                match self.position_of(id) {
                    Some(i) => {
                        let e = self.entries.remove(i);
                        self.entries.insert(i, KeyValueEntry { id: e.id, key, value: e.value });
                        assert(self.entries@ =~= with_key(old(self).entries@, id, key));
                    },
                    None => {
                        assert(self.entries@ =~= with_key(old(self).entries@, id, key));
                    },
                }
            },
            Message::EntryValueChanged(id, value) => {
                match self.position_of(id) {
                    Some(i) => {
                        let e = self.entries.remove(i);
                        self.entries.insert(i, KeyValueEntry { id: e.id, key: e.key, value });
                        assert(self.entries@ =~= with_value(old(self).entries@, id, value));
                    },
                    None => {
                        assert(self.entries@ =~= with_value(old(self).entries@, id, value));
                    },
                }
            },
            Message::AddEntry => {
                if self.next_id < usize::MAX {
                    self.entries.push(KeyValueEntry::new(self.next_id));
                    self.next_id = self.next_id + 1;
                    assert(self.entries@.drop_last() =~= old(self).entries@);
                }
            },
            Message::RemoveEntry(id) => {
                match self.position_of(id) {
                    Some(i) => {
                        proof {
                            let s = old(self).entries@;
                            lemma_without_prefix(s, id, i as int);
                        }
                        self.entries.remove(i);
                    },
                    None => {
                        proof {
                            lemma_without_absent(self.entries@, id);
                        }
                    },
                }
            },
        }
    }
}

/// Removing the only entry with id `id`, at position `i`.
proof fn lemma_without_prefix(s: Seq<KeyValueEntry>, id: usize, i: int)
    requires
        0 <= i < s.len(),
        s[i].id == id,
        forall|a: int, b: int| 0 <= a < s.len() && 0 <= b < s.len() && a != b ==> s[a].id != s[b].id,
    ensures
        without_id(s, id) == s.remove(i),
    decreases s.len(),
{
    if i == 0 {
        lemma_without_absent(s.drop_first(), id);
        assert(s.remove(0) =~= s.drop_first());
    } else {
        let t = s.drop_first();
        assert forall|a: int, b: int| 0 <= a < t.len() && 0 <= b < t.len() && a != b implies t[a].id
            != t[b].id by {
            assert(t[a] == s[a + 1] && t[b] == s[b + 1]);
        }
        lemma_without_prefix(t, id, i - 1);
        assert(s[0].id != id);
        assert(seq![s[0]] + t.remove(i - 1) =~= s.remove(i));
    }
}

} // verus!

verus! {

/// The views of a list of owned (key, value) pairs.
pub open spec fn pair_views(s: Seq<(String, String)>) -> Seq<(Seq<char>, Seq<char>)> {
    s.map_values(|p: (String, String)| (p.0@, p.1@))
}

/// The (key, value) pairs of the entries whose key is not empty, in order.
pub fn non_empty_pairs_of(entries: &Vec<KeyValueEntry>) -> (r: Vec<(String, String)>)
    ensures
        pair_views(r@) == non_empty_pairs(entries@),
{
    let mut r: Vec<(String, String)> = Vec::new();
    let mut i: usize = 0;
    while i < entries.len()
        invariant
            i <= entries@.len(),
            pair_views(r@) == non_empty_pairs(entries@.take(i as int)),
        decreases entries@.len() - i,
    {
        assert(entries@.take(i + 1).drop_last() =~= entries@.take(i as int));
        let e = &entries[i];
        if !e.key.as_str().is_empty() {
            let ghost before = r@;
            r.push((e.key.clone(), e.value.clone()));
            assert(pair_views(r@) =~= pair_views(before).push((e.key@, e.value@)));
        }
        i = i + 1;
    }
    assert(entries@.take(i as int) =~= entries@);
    r
}

/// The (key, value) pairs of all entries, in order.
pub fn pairs_of(entries: &Vec<KeyValueEntry>) -> (r: Vec<(String, String)>)
    ensures
        pair_views(r@) == all_pairs(entries@),
{
    let mut r: Vec<(String, String)> = Vec::new();
    let mut i: usize = 0;
    while i < entries.len()
        invariant
            i <= entries@.len(),
            pair_views(r@) == all_pairs(entries@.take(i as int)),
        decreases entries@.len() - i,
    {
        let e = &entries[i];
        let ghost before = r@;
        r.push((e.key.clone(), e.value.clone()));
        assert(pair_views(r@) =~= pair_views(before).push((e.key@, e.value@)));
        assert(all_pairs(entries@.take(i + 1)) =~= all_pairs(entries@.take(i as int)).push(
            (e.key@, e.value@),
        ));
        i = i + 1;
    }
    assert(entries@.take(i as int) =~= entries@);
    r
}

impl KeyValueEditor {
    /// Replaces the entries by `pairs`, in order, each with a fresh id; pairs
    /// for which the id generator has no id left are dropped.
    pub fn set_pairs(&mut self, pairs: Vec<(String, String)>)
        requires
            old(self).wf(),
        ensures
            final(self).wf(),
            final(self).button_text == old(self).button_text,
            old(self).next_id + pairs@.len() <= usize::MAX ==> all_pairs(final(self).entries@)
                == pair_views(pairs@),
            old(self).next_id + pairs@.len() <= usize::MAX ==> final(self).next_id
                == old(self).next_id + pairs@.len(),
    {
        let mut fresh: Vec<KeyValueEntry> = Vec::new();
        let mut rest = pairs;
        let mut taken: Vec<(String, String)> = Vec::new();
        let ghost all = rest@;
        let mut i: usize = 0;
        while i < rest.len()
            invariant
                rest@ == all,
                i <= all.len(),
                self.next_id == old(self).next_id + fresh@.len(),
                fresh@.len() <= i,
                old(self).next_id + all.len() <= usize::MAX ==> fresh@.len() == i,
                ids_fresh_below(fresh@, self.next_id as int),
                forall|j: int| 0 <= j < fresh@.len() ==> fresh@[j].id >= old(self).next_id,
                old(self).next_id + all.len() <= usize::MAX ==> all_pairs(fresh@) == pair_views(
                    all.take(i as int),
                ),
                self.button_text == old(self).button_text,
            decreases all.len() - i,
        {
            if self.next_id < usize::MAX {
                let ghost before = fresh@;
                let p = &rest[i];
                fresh.push(KeyValueEntry { id: self.next_id, key: p.0.clone(), value: p.1.clone() });
                self.next_id = self.next_id + 1;
                assert(all_pairs(fresh@) =~= all_pairs(before).push((p.0@, p.1@)));
                assert(pair_views(all.take(i + 1)) =~= pair_views(all.take(i as int)).push(
                    (p.0@, p.1@),
                ));
            }
            i = i + 1;
        }
        assert(all.take(i as int) =~= all);
        self.entries = fresh;
    }
}

} // verus!
