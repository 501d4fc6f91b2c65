//! A loaded manifest, as far as this library reads one.

use vstd::prelude::*;

verus! {

/// A structured document: the part of a manifest that lookups by key can
/// reach.
#[derive(Debug, PartialEq, Eq)]
pub enum Document {
    /// A string scalar.
    Text(String),
    /// A mapping: its entries that have a string as key, in the order of the
    /// document.
    Mapping(Vec<(String, Document)>),
    /// Any other value: a number, a list, nothing at all.
    Other,
}

/// The mathematical content of a [`Document`].
pub enum DocumentView {
    Text(Seq<char>),
    Mapping(Seq<(Seq<char>, DocumentView)>),
    Other,
}

impl View for Document {
    type V = DocumentView;

    open spec fn view(&self) -> DocumentView
        decreases self,
    {
        match self {
            Document::Text(text) => DocumentView::Text(text@),
            Document::Mapping(entries) => DocumentView::Mapping(entry_views(entries@)),
            Document::Other => DocumentView::Other,
        }
    }
}

/// The contents of the entries of a mapping, one for one.
pub open spec fn entry_views(entries: Seq<(String, Document)>) -> Seq<(Seq<char>, DocumentView)>
    decreases entries,
{
    if entries.len() == 0 {
        Seq::empty()
    } else {
        entry_views(entries.drop_last()).push((entries.last().0@, entries.last().1@))
    }
}

/// As many contents as entries, and each content that of the entry in its
/// place.
pub proof fn lemma_entry_views(entries: Seq<(String, Document)>)
    ensures
        entry_views(entries).len() == entries.len(),
        forall|i: int|
            0 <= i < entries.len() ==> entry_views(entries)[i] == (entries[i].0@, entries[i].1@),
    decreases entries.len(),
{
    reveal_with_fuel(entry_views, 2);
    if entries.len() > 0 {
        lemma_entry_views(entries.drop_last());
    }
}

/// The value of the first of `entries` whose key is `key`.
pub open spec fn first_with_key(entries: Seq<(Seq<char>, DocumentView)>, key: Seq<char>) -> Option<
    DocumentView,
>
    decreases entries.len(),
{
    if entries.len() == 0 {
        None
    } else if entries[0].0 == key {
        Some(entries[0].1)
    } else {
        first_with_key(entries.drop_first(), key)
    }
}

/// A lookup gives the value of an entry with the key, and of the first such
/// entry; it gives nothing only where no entry has the key.
pub proof fn lemma_first_with_key(entries: Seq<(Seq<char>, DocumentView)>, key: Seq<char>)
    ensures
        match first_with_key(entries, key) {
            Some(value) => exists|i: int|
                0 <= i < entries.len() && entries[i].0 == key && entries[i].1 == value && forall|
                    j: int,
                | 0 <= j < i ==> entries[j].0 != key,
            None => forall|i: int| 0 <= i < entries.len() ==> entries[i].0 != key,
        },
    decreases entries.len(),
{
    if entries.len() > 0 {
        if entries[0].0 == key {
            assert(0 <= 0 < entries.len() && entries[0].0 == key && entries[0].1 == entries[0].1
                && forall|j: int| 0 <= j < 0 ==> entries[j].0 != key);
        } else {
            let rest = entries.drop_first();
            lemma_first_with_key(rest, key);
            match first_with_key(rest, key) {
                Some(value) => {
                    let i = choose|i: int|
                        0 <= i < rest.len() && rest[i].0 == key && rest[i].1 == value && forall|
                            j: int,
                        | 0 <= j < i ==> rest[j].0 != key;
                    assert forall|j: int| 0 <= j < i + 1 implies entries[j].0 != key by {
                        if j > 0 {
                            assert(rest[j - 1] == entries[j]);
                        }
                    }
                    assert(entries[i + 1] == rest[i]);
                },
                None => {
                    assert forall|i: int| 0 <= i < entries.len() implies entries[i].0 != key by {
                        if i > 0 {
                            assert(rest[i - 1] == entries[i]);
                        }
                    }
                },
            }
        }
    }
}

/// The keys of a lookup, each as its sequence of characters.
pub open spec fn key_views(keys: Seq<&str>) -> Seq<Seq<char>> {
    keys.map_values(|key: &str| key@)
}

impl DocumentView {
    /// The value that a mapping holds under `key`; nothing where the
    /// document is no mapping or holds no such key.
    pub open spec fn field(self, key: Seq<char>) -> Option<DocumentView> {
        match self {
            DocumentView::Mapping(entries) => first_with_key(entries, key),
            _ => None,
        }
    }

    /// The value reached by looking up each of `keys` in turn, outermost
    /// first.
    pub open spec fn at(self, keys: Seq<Seq<char>>) -> Option<DocumentView>
        decreases keys.len(),
    {
        if keys.len() == 0 {
            Some(self)
        } else {
            match self.field(keys[0]) {
                Some(inner) => inner.at(keys.drop_first()),
                None => None,
            }
        }
    }

    /// The text of a string scalar; nothing for any other document.
    pub open spec fn text(self) -> Option<Seq<char>> {
        match self {
            DocumentView::Text(text) => Some(text),
            _ => None,
        }
    }

    /// The text of the string scalar reached by `keys`.
    pub open spec fn text_at(self, keys: Seq<Seq<char>>) -> Option<Seq<char>> {
        match self.at(keys) {
            Some(leaf) => leaf.text(),
            None => None,
        }
    }
}

impl Document {
    /// Look up `key` in a mapping: the value of the first entry with that
    /// key. Nothing where no entry has the key, or where the document is no
    /// mapping.
    pub fn get(&self, key: &str) -> (value: Option<&Document>)
        ensures
            match value {
                Some(found) => self@.field(key@) == Some(found@),
                None => self@.field(key@) is None,
            },
            value is Some <==> self@ is Mapping && exists|i: int|
                0 <= i < self@->Mapping_0.len() && (#[trigger] self@->Mapping_0[i]).0 == key@,
    {
        proof {
            if self@ is Mapping {
                lemma_first_with_key(self@->Mapping_0, key@);
            }
        }
        match self {
            Document::Mapping(entries) => {
                let wanted = key.to_owned();
                let ghost all = self@->Mapping_0;
                let mut i: usize = 0;
                proof {
                    lemma_entry_views(entries@);
                    assert(all.skip(0) == all);
                }
                while i < entries.len()
                    invariant
                        i <= entries.len(),
                        wanted@ == key@,
                        self@ == DocumentView::Mapping(all),
                        all.len() == entries@.len(),
                        forall|k: int|
                            0 <= k < all.len() ==> all[k] == (entries@[k].0@, entries@[k].1@),
                        first_with_key(all, key@) == first_with_key(all.skip(i as int), key@),
                    decreases entries.len() - i,
                {
                    proof {
                        assert(all.skip(i as int)[0] == all[i as int]);
                        assert(all.skip(i as int).drop_first() == all.skip(i + 1));
                    }
                    if entries[i].0 == wanted {
                        return Some(&entries[i].1);
                    }
                    i += 1;
                }
                None
            },
            _ => None,
        }
    }

    /// The text of a string scalar.
    pub fn as_text(&self) -> (text: Option<&str>)
        ensures
            match text {
                Some(found) => self@.text() == Some(found@),
                None => self@.text() is None,
            },
    {
        match self {
            Document::Text(text) => Some(text.as_str()),
            _ => None,
        }
    }

    /// The text of the string scalar reached by looking up each of `keys` in
    /// turn, outermost first. Nothing where a key is missing on the way, or
    /// where what is reached is no string.
    pub fn text_at(&self, keys: &[&str]) -> (text: Option<&str>)
        ensures
            match text {
                Some(found) => self@.text_at(key_views(keys@)) == Some(found@),
                None => self@.text_at(key_views(keys@)) is None,
            },
    {
        let mut here = self;
        let mut i: usize = 0;
        proof {
            assert(key_views(keys@).skip(0) == key_views(keys@));
        }
        while i < keys.len()
            invariant
                i <= keys.len(),
                self@.at(key_views(keys@)) == here@.at(key_views(keys@).skip(i as int)),
            decreases keys.len() - i,
        {
            proof {
                assert(key_views(keys@).skip(i as int)[0] == keys@[i as int]@);
                assert(key_views(keys@).skip(i as int).drop_first() == key_views(keys@).skip(
                    i + 1,
                ));
            }
            match here.get(keys[i]) {
                Some(inner) => {
                    here = inner;
                },
                None => {
                    return None;
                },
            }
            i += 1;
        }
        here.as_text()
    }
}

} // verus!
