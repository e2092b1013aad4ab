//! Descriptor records ("raws") and the tree that finds them by
//! hierarchical path.
//!
//! A path is a list of names. All names but the last lead down through
//! subtrees; the last names a record on the level that was reached.

use vstd::prelude::*;
use vstd::string::StrSliceExecFns;
use crate::text::chars_of;

verus! {

/// A JSON value of `serde_json`, carried as it is.
#[verifier::external_type_specification]
#[verifier::external_body]
pub struct ExJsonValue(serde_json::Value);

/// The text of the string that a JSON document holds under `key`, if the
/// document is an object that has a string there.
pub uninterp spec fn document_text(document: serde_json::Value, key: Seq<char>) -> Option<
    Seq<char>,
>;

/// `serde_json::Value::get` with the key `key`, then `Value::as_str` on
/// what was found: the string under `key`, where the document is an object
/// with a string there.
#[verifier::external_body]
fn read_document_text(document: &serde_json::Value, key: &str) -> (r: Option<String>)
    ensures
        match r {
            Some(s) => document_text(*document, key@) == Some(s@),
            None => document_text(*document, key@) is None,
        },
{
    match document.get(key) {
        Some(field) => match field.as_str() {
            Some(text) => Some(text.to_owned()),
            None => None,
        },
        None => None,
    }
}

/// The path that a descriptor document names: the text under its key
/// `path`.
pub open spec fn document_path(document: serde_json::Value) -> Option<Seq<char>> {
    document_text(document, "path"@)
}

/// The texts that the strings of `names` hold.
pub open spec fn name_texts(names: Seq<String>) -> Seq<Seq<char>> {
    names.map_values(|s: String| s@)
}

/// The texts that the string slices of `names` hold.
pub open spec fn slice_texts(names: Seq<&str>) -> Seq<Seq<char>> {
    names.map_values(|s: &str| s@)
}

/// `text` cut at every `/`. There is always at least one piece; a `/` at
/// either end, or two in a row, give an empty piece.
pub open spec fn split_text(text: Seq<char>) -> Seq<Seq<char>>
    decreases text.len(),
{
    if text.len() == 0 {
        seq![Seq::empty()]
    } else {
        let front = split_text(text.drop_last());
        if text.last() == '/' {
            front.push(Seq::empty())
        } else {
            front.drop_last().push(front.last().push(text.last()))
        }
    }
}

/// Cutting a text gives at least one piece.
pub proof fn lemma_split_text_nonempty(text: Seq<char>)
    ensures
        split_text(text).len() >= 1,
    decreases text.len(),
{
    if text.len() > 0 {
        lemma_split_text_nonempty(text.drop_last());
    }
}

/// Cuts `path` at every `/`.
pub fn split_path(path: &str) -> (v: Vec<String>)
    ensures
        name_texts(v@) == split_text(path@),
        v@.len() >= 1,
{
    let chars = chars_of(path);
    let mut v: Vec<String> = Vec::new();
    let mut start: usize = 0;
    let mut i: usize = 0;
    assert(path@.subrange(0, 0) =~= Seq::<char>::empty());
    assert(name_texts(v@).push(path@.subrange(0, 0)) =~= seq![Seq::<char>::empty()]);
    while i < chars.len()
        invariant
            start <= i <= chars.len(),
            chars@ == path@,
            split_text(path@.subrange(0, i as int)) == name_texts(v@).push(
                path@.subrange(start as int, i as int),
            ),
        decreases chars.len() - i,
    {
        proof {
            let upto = path@.subrange(0, i as int + 1);
            assert(upto.drop_last() =~= path@.subrange(0, i as int));
            assert(upto.last() == chars@[i as int]);
            let front = split_text(path@.subrange(0, i as int));
            assert(front.drop_last() =~= name_texts(v@));
            assert(front.last() == path@.subrange(start as int, i as int));
        }
        if chars[i] == '/' {
            let piece = path.substring_char(start, i);
            let ghost before = v@;
            v.push(String::from_str(piece));
            proof {
                assert(name_texts(v@) =~= name_texts(before).push(
                    path@.subrange(start as int, i as int),
                ));
                assert(path@.subrange(i as int + 1, i as int + 1) =~= Seq::<char>::empty());
            }
            start = i + 1;
        } else {
            proof {
                assert(path@.subrange(start as int, i as int).push(chars@[i as int])
                    =~= path@.subrange(start as int, i as int + 1));
            }
        }
        i = i + 1;
    }
    let piece = path.substring_char(start, i);
    let ghost before = v@;
    v.push(String::from_str(piece));
    proof {
        assert(path@.subrange(0, i as int) =~= path@);
        assert(name_texts(v@) =~= name_texts(before).push(path@.subrange(start as int, i as int)));
    }
    v
}

/// One descriptor record: a structured value and the path it is filed
/// under.
#[derive(Debug)]
pub struct Raw {
    dat: serde_json::Value,
    path: Vec<String>,
}

/// What a record is: its value and its path.
pub struct RawView {
    pub dat: serde_json::Value,
    pub path: Seq<Seq<char>>,
}

impl View for Raw {
    type V = RawView;

    closed spec fn view(&self) -> RawView {
        RawView { dat: self.dat, path: name_texts(self.path@) }
    }
}

impl Raw {
    /// The record with the value `dat`, filed under `path`.
    pub fn new(path: Vec<String>, dat: serde_json::Value) -> (raw: Self)
        ensures
            raw@ == (RawView { dat, path: name_texts(path@) }),
    {
        Self { dat, path }
    }

    pub fn dat(&self) -> (dat: &serde_json::Value)
        ensures
            *dat == self@.dat,
    {
        &self.dat
    }

    pub fn path(&self) -> (path: &Vec<String>)
        ensures
            name_texts(path@) == self@.path,
    {
        &self.path
    }
}

/// A tree of records. Each node has a level of named records and named
/// subtrees. In a tree that was made empty and grown by filing, a name
/// occurs once on each of the two lists of every node (`distinct`).
#[derive(Debug)]
pub struct RawTree {
    level: Vec<(String, Raw)>,
    subtrees: Vec<(String, RawTree)>,
}

/// What a tree is: its records and its subtrees, each with its name, in the
/// order in which the names were first inserted.
pub struct RawTreeView {
    pub level: Seq<(Seq<char>, RawView)>,
    pub subtrees: Seq<(Seq<char>, RawTreeView)>,
}

/// The place of `name` on a list of names: the index of its first
/// occurrence, or the length of the list if it does not occur.
pub open spec fn place_of(names: Seq<Seq<char>>, name: Seq<char>) -> int
    decreases names.len(),
{
    if names.len() == 0 {
        0
    } else if names[0] == name {
        0
    } else {
        1 + place_of(names.drop_first(), name)
    }
}

/// The place of a name is where a search from the front finds it.
pub proof fn lemma_place_of(names: Seq<Seq<char>>, name: Seq<char>, i: int)
    requires
        0 <= i <= names.len(),
        forall|j: int| 0 <= j < i ==> names[j] != name,
        i < names.len() ==> names[i] == name,
    ensures
        place_of(names, name) == i,
    decreases names.len(),
{
    if names.len() > 0 && i > 0 {
        let rest = names.drop_first();
        assert forall|j: int| 0 <= j < i - 1 implies rest[j] != name by {
            assert(rest[j] == names[j + 1]);
        }
        assert(names[0] != name);
        lemma_place_of(rest, name, i - 1);
    }
}

/// The place of a name lies on the list or right behind it, and no name
/// before it is the name.
pub proof fn lemma_place_of_bounds(names: Seq<Seq<char>>, name: Seq<char>)
    ensures
        0 <= place_of(names, name) <= names.len(),
        place_of(names, name) < names.len() ==> names[place_of(names, name)] == name,
        forall|j: int| 0 <= j < place_of(names, name) ==> names[j] != name,
    decreases names.len(),
{
    if names.len() > 0 && names[0] != name {
        let rest = names.drop_first();
        lemma_place_of_bounds(rest, name);
        assert forall|j: int| 0 <= j < place_of(names, name) implies names[j] != name by {
            if j > 0 {
                assert(rest[j - 1] == names[j]);
            }
        }
    }
}

impl RawTreeView {
    /// The tree without records and subtrees.
    pub open spec fn empty() -> Self {
        RawTreeView { level: Seq::empty(), subtrees: Seq::empty() }
    }

    /// On each of the two lists of this node, and of every node below it,
    /// a name occurs once.
    pub open spec fn distinct(self) -> bool
        decreases self,
    {
        &&& self.level_names().no_duplicates()
        &&& self.subtree_names().no_duplicates()
        &&& forall|i: int|
            0 <= i < self.subtrees.len() ==> (#[trigger] self.subtrees[i]).1.distinct()
    }

    /// The names of the records on this node's level.
    pub open spec fn level_names(self) -> Seq<Seq<char>> {
        self.level.map_values(|e: (Seq<char>, RawView)| e.0)
    }

    /// The names of this node's subtrees.
    pub open spec fn subtree_names(self) -> Seq<Seq<char>> {
        self.subtrees.map_values(|e: (Seq<char>, RawTreeView)| e.0)
    }

    /// The records on this node's level, in order.
    pub open spec fn level_records(self) -> Seq<RawView> {
        self.level.map_values(|e: (Seq<char>, RawView)| e.1)
    }

    /// The record filed under `path`, if there is one. No record is filed
    /// under the empty path.
    pub open spec fn lookup(self, path: Seq<Seq<char>>) -> Option<RawView>
        decreases path.len(),
    {
        if path.len() == 0 {
            None
        } else if path.len() == 1 {
            let i = place_of(self.level_names(), path[0]);
            if 0 <= i < self.level.len() {
                Some(self.level[i].1)
            } else {
                None
            }
        } else {
            let i = place_of(self.subtree_names(), path[0]);
            if 0 <= i < self.subtrees.len() {
                self.subtrees[i].1.lookup(path.drop_first())
            } else {
                None
            }
        }
    }

    /// The tree with `raw` filed under `path`: in place of the record that
    /// was filed there, or as a new record, behind new subtrees where the
    /// path leads through names that had none.
    pub open spec fn inserted(self, raw: RawView, path: Seq<Seq<char>>) -> Self
        decreases path.len(),
    {
        if path.len() == 0 {
            self
        } else if path.len() == 1 {
            let i = place_of(self.level_names(), path[0]);
            if 0 <= i < self.level.len() {
                RawTreeView { level: self.level.update(i, (path[0], raw)), ..self }
            } else {
                RawTreeView { level: self.level.push((path[0], raw)), ..self }
            }
        } else {
            let i = place_of(self.subtree_names(), path[0]);
            if 0 <= i < self.subtrees.len() {
                RawTreeView {
                    subtrees: self.subtrees.update(
                        i,
                        (path[0], self.subtrees[i].1.inserted(raw, path.drop_first())),
                    ),
                    ..self
                }
            } else {
                RawTreeView {
                    subtrees: self.subtrees.push(
                        (path[0], Self::empty().inserted(raw, path.drop_first())),
                    ),
                    ..self
                }
            }
        }
    }

    /// The records on the level of the node that `path` leads to; where the
    /// path names a subtree that does not exist, the records on the level of
    /// the last node that it reached.
    pub open spec fn all_under(self, path: Seq<Seq<char>>) -> Seq<RawView>
        decreases path.len(),
    {
        if path.len() == 0 {
            self.level_records()
        } else {
            let i = place_of(self.subtree_names(), path[0]);
            if 0 <= i < self.subtrees.len() {
                self.subtrees[i].1.all_under(path.drop_first())
            } else {
                self.level_records()
            }
        }
    }
}

/// What the tree `tree` is.
pub closed spec fn tree_view(tree: RawTree) -> RawTreeView
    decreases tree,
{
    RawTreeView {
        level: Seq::new(tree.level@.len(), |i: int| (tree.level@[i].0@, tree.level@[i].1@)),
        subtrees: Seq::new(
            tree.subtrees@.len(),
            |i: int|
                if 0 <= i < tree.subtrees@.len() {
                    (tree.subtrees@[i].0@, tree_view(tree.subtrees@[i].1))
                } else {
                    arbitrary()
                },
        ),
    }
}

impl View for RawTree {
    type V = RawTreeView;

    open spec fn view(&self) -> RawTreeView {
        tree_view(*self)
    }
}

/// The index of the record named `name` on `level`, or the length of
/// `level` if there is none.
fn find_record(level: &Vec<(String, Raw)>, name: &str) -> (i: usize)
    ensures
        i == place_of(level@.map_values(|e: (String, Raw)| e.0@), name@),
        i <= level.len(),
{
    let ghost names = level@.map_values(|e: (String, Raw)| e.0@);
    let wanted = String::from_str(name);
    let mut i: usize = 0;
    while i < level.len()
        invariant
            i <= level.len(),
            wanted@ == name@,
            names == level@.map_values(|e: (String, Raw)| e.0@),
            forall|j: int| 0 <= j < i ==> names[j] != name@,
        decreases level.len() - i,
    {
        if level[i].0 == wanted {
            proof {
                lemma_place_of(names, name@, i as int);
            }
            return i;
        }
        i = i + 1;
    }
    proof {
        lemma_place_of(names, name@, i as int);
    }
    i
}

/// The index of the subtree named `name` on `subtrees`, or the length of
/// `subtrees` if there is none.
fn find_subtree(subtrees: &Vec<(String, RawTree)>, name: &str) -> (i: usize)
    ensures
        i == place_of(subtrees@.map_values(|e: (String, RawTree)| e.0@), name@),
        i <= subtrees.len(),
{
    let ghost names = subtrees@.map_values(|e: (String, RawTree)| e.0@);
    let wanted = String::from_str(name);
    let mut i: usize = 0;
    while i < subtrees.len()
        invariant
            i <= subtrees.len(),
            wanted@ == name@,
            names == subtrees@.map_values(|e: (String, RawTree)| e.0@),
            forall|j: int| 0 <= j < i ==> names[j] != name@,
        decreases subtrees.len() - i,
    {
        if subtrees[i].0 == wanted {
            proof {
                lemma_place_of(names, name@, i as int);
            }
            return i;
        }
        i = i + 1;
    }
    proof {
        lemma_place_of(names, name@, i as int);
    }
    i
}

impl RawTree {
    /// The tree without records.
    pub fn new_empty() -> (tree: RawTree)
        ensures
            tree@ == RawTreeView::empty(),
            tree@.distinct(),
    {
        let tree = Self { level: Vec::new(), subtrees: Vec::new() };
        assert(tree@.level =~= Seq::empty());
        assert(tree@.subtrees =~= Seq::empty());
        proof {
            lemma_empty_tree_is_distinct();
        }
        tree
    }

    /// Files `raw` under `path_remaining`. Names stay distinct.
    pub fn insert(&mut self, raw: Raw, path_remaining: &[String])
        requires
            path_remaining@.len() >= 1,
        ensures
            final(self)@ == old(self)@.inserted(raw@, name_texts(path_remaining@)),
            old(self)@.distinct() ==> final(self)@.distinct(),
        decreases path_remaining@.len(),
    {
        let ghost path = name_texts(path_remaining@);
        proof {
            if old(self)@.distinct() {
                lemma_inserted_distinct(old(self)@, raw@, path);
            }
        }
        if path_remaining.len() == 1 {
            let i = find_record(&self.level, path_remaining[0].as_str());
            assert(self@.level_names() =~= self.level@.map_values(|e: (String, Raw)| e.0@));
            if i < self.level.len() {
                self.level.set(i, (path_remaining[0].clone(), raw));
                assert(self@.level =~= old(self)@.level.update(i as int, (path[0], raw@)));
            } else {
                self.level.push((path_remaining[0].clone(), raw));
                assert(self@.level =~= old(self)@.level.push((path[0], raw@)));
            }
            assert(self@.subtrees =~= old(self)@.subtrees);
        } else {
            let i = find_subtree(&self.subtrees, path_remaining[0].as_str());
            assert(self@.subtree_names() =~= self.subtrees@.map_values(
                |e: (String, RawTree)| e.0@,
            ));
            let rest = &path_remaining[1..path_remaining.len()];
            assert(name_texts(rest@) =~= path.drop_first());
            if i < self.subtrees.len() {
                self.subtrees[i].1.insert(raw, rest);
                proof {
                    lemma_place_of_bounds(old(self)@.subtree_names(), path[0]);
                    assert(self@.subtrees =~= old(self)@.subtrees.update(
                        i as int,
                        (path[0], old(self)@.subtrees[i as int].1.inserted(raw@, path.drop_first())),
                    ));
                }
            } else {
                let mut t = RawTree::new_empty();
                t.insert(raw, rest);
                self.subtrees.push((path_remaining[0].clone(), t));
                assert(self@.subtrees =~= old(self)@.subtrees.push(
                    (path[0], RawTreeView::empty().inserted(raw@, path.drop_first())),
                ));
            }
            assert(self@.level =~= old(self)@.level);
        }
    }

    /// Files the JSON document `document` under the path that it names in
    /// its `path` entry, cut at every `/`. A document without such an entry
    /// is not filed.
    pub fn insert_document(&mut self, document: serde_json::Value) -> (filed: bool)
        ensures
            match document_path(document) {
                Some(text) => filed && final(self)@ == old(self)@.inserted(
                    RawView { dat: document, path: split_text(text) },
                    split_text(text),
                ),
                None => !filed && final(self)@ == old(self)@,
            },
            old(self)@.distinct() ==> final(self)@.distinct(),
    {
        match read_document_text(&document, "path") {
            Some(text) => {
                let compiled_path_string = split_path(text.as_str());
                let key = split_path(text.as_str());
                self.insert(Raw::new(compiled_path_string, document), key.as_slice());
                true
            },
            None => false,
        }
    }

    /// The records on the level that `path_remaining` leads to. A name
    /// that has no subtree ends the descent: the records are then those of
    /// the level reached so far.
    pub fn search_for_all(&self, path_remaining: &[&str]) -> (found: Vec<&Raw>)
        ensures
            found@.map_values(|r: &Raw| r@) == self@.all_under(slice_texts(path_remaining@)),
        decreases path_remaining@.len(),
    {
        if path_remaining.len() > 0 {
            let i = find_subtree(&self.subtrees, path_remaining[0]);
            assert(self@.subtree_names() =~= self.subtrees@.map_values(
                |e: (String, RawTree)| e.0@,
            ));
            if i < self.subtrees.len() {
                let rest = &path_remaining[1..path_remaining.len()];
                assert(slice_texts(rest@) =~= slice_texts(path_remaining@).drop_first());
                return self.subtrees[i].1.search_for_all(rest);
            }
        }
        let mut found: Vec<&Raw> = Vec::new();
        let mut i: usize = 0;
        while i < self.level.len()
            invariant
                i <= self.level.len(),
                found@.map_values(|r: &Raw| r@) == self@.level_records().subrange(0, i as int),
            decreases self.level.len() - i,
        {
            let ghost before = found@;
            found.push(&self.level[i].1);
            proof {
                assert(self@.level_records()[i as int] == self.level@[i as int].1@);
                assert(found@.map_values(|r: &Raw| r@) =~= before.map_values(|r: &Raw| r@).push(
                    self.level@[i as int].1@,
                ));
                assert(self@.level_records().subrange(0, i as int + 1) =~= self@.level_records().subrange(
                    0,
                    i as int,
                ).push(self@.level_records()[i as int]));
            }
            i = i + 1;
        }
        assert(self@.level_records().subrange(0, i as int) =~= self@.level_records());
        found
    }

    /// The record filed under `path_remaining`.
    pub fn search(&self, path_remaining: &[String]) -> (found: Option<&Raw>)
        requires
            path_remaining@.len() >= 1,
        ensures
            match found {
                Some(raw) => self@.lookup(name_texts(path_remaining@)) == Some(raw@),
                None => self@.lookup(name_texts(path_remaining@)) is None,
            },
        decreases path_remaining@.len(),
    {
        if path_remaining.len() == 1 {
            let i = find_record(&self.level, path_remaining[0].as_str());
            assert(self@.level_names() =~= self.level@.map_values(|e: (String, Raw)| e.0@));
            if i < self.level.len() {
                Some(&self.level[i].1)
            } else {
                None
            }
        } else {
            let i = find_subtree(&self.subtrees, path_remaining[0].as_str());
            assert(self@.subtree_names() =~= self.subtrees@.map_values(
                |e: (String, RawTree)| e.0@,
            ));
            if i < self.subtrees.len() {
                let rest = &path_remaining[1..path_remaining.len()];
                assert(name_texts(rest@) =~= name_texts(path_remaining@).drop_first());
                self.subtrees[i].1.search(rest)
            } else {
                None
            }
        }
    }
}

/// Where names are found on a list after `name` took its place on it: in
/// place of its first occurrence, or at the end if it did not occur.
pub proof fn lemma_place_of_after_insert(names: Seq<Seq<char>>, name: Seq<char>, other: Seq<char>)
    ensures
        ({
            let i = place_of(names, name);
            let after = if i < names.len() {
                names.update(i, name)
            } else {
                names.push(name)
            };
            &&& 0 <= i <= names.len()
            &&& place_of(after, name) == i
            &&& other != name ==> (place_of(names, other) < names.len() ==> place_of(after, other)
                == place_of(names, other))
            &&& other != name ==> (place_of(names, other) >= names.len() ==> place_of(after, other)
                == after.len())
        }),
{
    let i = place_of(names, name);
    lemma_place_of_bounds(names, name);
    lemma_place_of_bounds(names, other);
    let after = if i < names.len() {
        names.update(i, name)
    } else {
        names.push(name)
    };
    lemma_place_of(after, name, i);
    if other != name {
        let k = place_of(names, other);
        if k < names.len() {
            lemma_place_of(after, other, k);
        } else {
            lemma_place_of(after, other, after.len() as int);
        }
    }
}

/// Filing, then searching. The record filed under a path is the record
/// found under that path, and filing it changes what is found under no
/// other path.
pub proof fn lemma_insert_then_search(
    tree: RawTreeView,
    raw: RawView,
    path: Seq<Seq<char>>,
    other: Seq<Seq<char>>,
)
    requires
        path.len() >= 1,
    ensures
        tree.inserted(raw, path).lookup(path) == Some(raw),
        other != path ==> tree.inserted(raw, path).lookup(other) == tree.lookup(other),
    decreases path.len(),
{
    let after = tree.inserted(raw, path);
    if path.len() == 1 {
        let names = tree.level_names();
        let i = place_of(names, path[0]);
        assert(after.subtrees == tree.subtrees);
        lemma_place_of_after_insert(names, path[0], path[0]);
        lemma_place_of_bounds(names, path[0]);
        if i < tree.level.len() {
            assert(after.level_names() =~= names.update(i, path[0]));
        } else {
            assert(after.level_names() =~= names.push(path[0]));
        }
        assert(after.lookup(path) == Some(raw));
        if other != path {
            if other.len() == 1 {
                assert(other[0] != path[0]) by {
                    if other[0] == path[0] {
                        assert(other =~= path);
                    }
                }
                lemma_place_of_after_insert(names, path[0], other[0]);
                lemma_place_of_bounds(names, other[0]);
                let k = place_of(names, other[0]);
                if k < names.len() {
                    assert(names[k] == other[0]);
                    assert(k != i);
                    assert(after.level[k] == tree.level[k]);
                }
                assert(after.lookup(other) == tree.lookup(other));
            } else if other.len() > 1 {
                assert(after.subtree_names() == tree.subtree_names());
                assert(after.lookup(other) == tree.lookup(other));
            }
        }
    } else {
        let names = tree.subtree_names();
        let i = place_of(names, path[0]);
        let rest = path.drop_first();
        assert(after.level == tree.level);
        lemma_place_of_after_insert(names, path[0], path[0]);
        lemma_place_of_bounds(names, path[0]);
        let child = if i < tree.subtrees.len() {
            tree.subtrees[i].1
        } else {
            RawTreeView::empty()
        };
        if i < tree.subtrees.len() {
            assert(after.subtree_names() =~= names.update(i, path[0]));
        } else {
            assert(after.subtree_names() =~= names.push(path[0]));
        }
        lemma_insert_then_search(child, raw, rest, rest);
        assert(after.subtrees[i].1 == child.inserted(raw, rest));
        assert(after.lookup(path) == Some(raw));
        if other != path {
            if other.len() == 1 {
                assert(after.level_names() == tree.level_names());
                assert(after.lookup(other) == tree.lookup(other));
            } else if other.len() > 1 {
                lemma_place_of_after_insert(names, path[0], other[0]);
                lemma_place_of_bounds(names, other[0]);
                if other[0] == path[0] {
                    lemma_insert_then_search(child, raw, rest, other.drop_first());
                    assert(other.drop_first() != rest) by {
                        if other.drop_first() == rest {
                            assert(other =~= path) by {
                                assert(other.len() == path.len());
                                assert forall|k: int| 0 <= k < other.len() implies other[k]
                                    == path[k] by {
                                    if k > 0 {
                                        assert(other.drop_first()[k - 1] == rest[k - 1]);
                                    }
                                }
                            }
                        }
                    }
                    if i >= tree.subtrees.len() {
                        lemma_empty_tree_holds_nothing(other.drop_first());
                    }
                    assert(after.lookup(other) == tree.lookup(other));
                } else {
                    let k = place_of(names, other[0]);
                    if k < names.len() {
                        assert(names[k] == other[0]);
                        assert(k != i);
                        assert(after.subtrees[k] == tree.subtrees[k]);
                    }
                    assert(after.lookup(other) == tree.lookup(other));
                }
            }
        }
    }
}

/// Nothing is found in the empty tree.
pub proof fn lemma_empty_tree_holds_nothing(path: Seq<Seq<char>>)
    ensures
        RawTreeView::empty().lookup(path) is None,
{
    let t = RawTreeView::empty();
    assert(t.level_names() =~= Seq::<Seq<char>>::empty());
    assert(t.subtree_names() =~= Seq::<Seq<char>>::empty());
}

/// Names stay distinct on a list on which a name takes its place.
pub proof fn lemma_place_keeps_names_distinct(names: Seq<Seq<char>>, name: Seq<char>)
    requires
        names.no_duplicates(),
    ensures
        ({
            let i = place_of(names, name);
            if i < names.len() {
                names.update(i, name).no_duplicates()
            } else {
                names.push(name).no_duplicates()
            }
        }),
{
    lemma_place_of_bounds(names, name);
    let i = place_of(names, name);
    if i < names.len() {
        assert(names.update(i, name) =~= names);
    } else {
        let after = names.push(name);
        assert forall|a: int, b: int| 0 <= a < after.len() && 0 <= b < after.len() && a
            != b implies after[a] != after[b] by {
            if a < names.len() && b < names.len() {
                assert(names[a] != names[b]);
            } else if a < names.len() {
                assert(names[a] != name);
            } else {
                assert(names[b] != name);
            }
        }
    }
}

/// Filing keeps names distinct.
pub proof fn lemma_inserted_distinct(tree: RawTreeView, raw: RawView, path: Seq<Seq<char>>)
    requires
        tree.distinct(),
    ensures
        tree.inserted(raw, path).distinct(),
    decreases path.len(),
{
    let after = tree.inserted(raw, path);
    if path.len() == 1 {
        let names = tree.level_names();
        let i = place_of(names, path[0]);
        lemma_place_of_bounds(names, path[0]);
        lemma_place_keeps_names_distinct(names, path[0]);
        if i < tree.level.len() {
            assert(after.level_names() =~= names.update(i, path[0]));
        } else {
            assert(after.level_names() =~= names.push(path[0]));
        }
        assert(after.subtrees == tree.subtrees);
    } else if path.len() > 1 {
        let names = tree.subtree_names();
        let i = place_of(names, path[0]);
        let rest = path.drop_first();
        lemma_place_of_bounds(names, path[0]);
        lemma_place_keeps_names_distinct(names, path[0]);
        assert(after.level == tree.level);
        if i < tree.subtrees.len() {
            assert(after.subtree_names() =~= names.update(i, path[0]));
            assert(tree.subtrees[i].1.distinct());
            lemma_inserted_distinct(tree.subtrees[i].1, raw, rest);
            assert forall|k: int| 0 <= k < after.subtrees.len() implies (
            #[trigger] after.subtrees[k]).1.distinct() by {
                if k != i {
                    assert(after.subtrees[k] == tree.subtrees[k]);
                }
            }
        } else {
            assert(after.subtree_names() =~= names.push(path[0]));
            lemma_empty_tree_is_distinct();
            lemma_inserted_distinct(RawTreeView::empty(), raw, rest);
            assert forall|k: int| 0 <= k < after.subtrees.len() implies (
            #[trigger] after.subtrees[k]).1.distinct() by {
                if k < tree.subtrees.len() {
                    assert(after.subtrees[k] == tree.subtrees[k]);
                }
            }
        }
    }
}

/// The empty tree has no name twice.
pub proof fn lemma_empty_tree_is_distinct()
    ensures
        RawTreeView::empty().distinct(),
{
    let t = RawTreeView::empty();
    assert(t.level_names() =~= Seq::<Seq<char>>::empty());
    assert(t.subtree_names() =~= Seq::<Seq<char>>::empty());
}

} // verus!
