use vstd::prelude::*;
use crate::names::{
    name_lt, compare_names, NameOrder, lemma_name_lt_irreflexive, lemma_name_lt_asymmetric,
    lemma_name_lt_total, lemma_name_lt_transitive,
};
use crate::text::{chars_of, string_from_chars};

verus! {

/// A path as the sequence of its names.
pub type Path = Seq<Seq<char>>;

/// What a path names in the file system.
pub enum FsEntry {
    File(Seq<u8>),
    Dir,
}

pub open spec fn is_file_entry(e: Option<FsEntry>) -> bool {
    e matches Some(FsEntry::File(_))
}

// ---------------------------------------------------------------------------
// Splitting a path string at '/' and dropping the empty pieces.

/// The finished names and the name under construction after reading `s`.
pub open spec fn split_state(s: Seq<char>) -> (Seq<Seq<char>>, Seq<char>)
    decreases s.len(),
{
    if s.len() == 0 {
        (Seq::empty(), Seq::empty())
    } else {
        let (done, cur) = split_state(s.drop_last());
        if s.last() == '/' {
            (if cur.len() > 0 { done.push(cur) } else { done }, Seq::empty())
        } else {
            (done, cur.push(s.last()))
        }
    }
}

/// The names of a path string: the non-empty pieces between slashes.
pub open spec fn components(s: Seq<char>) -> Path {
    let (done, cur) = split_state(s);
    if cur.len() > 0 {
        done.push(cur)
    } else {
        done
    }
}

/// Every name is non-empty and holds no slash.
pub open spec fn valid_names(p: Path) -> bool {
    forall|i: int| 0 <= i < p.len() ==> p[i].len() > 0 && !p[i].contains('/')
}

proof fn lemma_split_state_valid(s: Seq<char>)
    ensures
        valid_names(split_state(s).0),
        !split_state(s).1.contains('/'),
    decreases s.len(),
{
    if s.len() > 0 {
        lemma_split_state_valid(s.drop_last());
        let (done, cur) = split_state(s.drop_last());
        if s.last() != '/' {
            assert forall|j: int| 0 <= j < cur.push(s.last()).len() implies cur.push(s.last())[j] != '/' by {
                if j < cur.len() {
                    assert(cur.push(s.last())[j] == cur[j]);
                    assert(!cur.contains('/'));
                    if cur[j] == '/' {
                        assert(cur.contains('/'));
                    }
                }
            }
        }
    }
}

/// The names of any path are non-empty and hold no '/'.
pub proof fn lemma_components_valid(s: Seq<char>)
    ensures
        valid_names(components(s)),
{
    lemma_split_state_valid(s);
}

pub open spec fn views(v: Seq<Vec<char>>) -> Path {
    v.map_values(|x: Vec<char>| x@)
}

/// Splits a path string into its names.
pub fn path_components(path: &str) -> (parts: Vec<Vec<char>>)
    ensures
        views(parts@) == components(path@),
{
    let chars = chars_of(path);
    let mut done: Vec<Vec<char>> = Vec::new();
    let mut cur: Vec<char> = Vec::new();
    let mut i: usize = 0;
    while i < chars.len()
        invariant
            i <= chars.len(),
            chars@ == path@,
            (views(done@), cur@) == split_state(chars@.take(i as int)),
        decreases chars.len() - i,
    {
        let c = chars[i];
        proof {
            assert(chars@.take(i + 1).drop_last() == chars@.take(i as int));
            assert(chars@.take(i + 1).last() == c);
        }
        if c == '/' {
            if cur.len() > 0 {
                let finished = cur;
                let ghost before = views(done@);
                done.push(finished);
                assert(views(done@) =~= before.push(finished@));
                cur = Vec::new();
            } else {
                cur = Vec::new();
            }
            assert(cur@ =~= Seq::<char>::empty());
        } else {
            cur.push(c);
        }
        i = i + 1;
    }
    assert(chars@.take(i as int) == chars@);
    if cur.len() > 0 {
        let finished = cur;
        let ghost before = views(done@);
        done.push(finished);
        assert(views(done@) =~= before.push(finished@));
    }
    done
}


// ---------------------------------------------------------------------------
// The tree.

/// A node of the in-memory file system: a file with its bytes, or a directory
/// whose children are kept sorted by name.
pub enum FsNode {
    File { content: Vec<u8> },
    Directory { children: Vec<(String, FsNode)> },
}

impl FsNode {
    pub open spec fn entry(self) -> FsEntry {
        match self {
            FsNode::File { content } => FsEntry::File(content@),
            FsNode::Directory { .. } => FsEntry::Dir,
        }
    }

    pub open spec fn is_dir(self) -> bool {
        self is Directory
    }
}

pub open spec fn has_child(ch: Seq<(String, FsNode)>, name: Seq<char>) -> bool {
    exists|i: int| 0 <= i < ch.len() && ch[i].0@ == name
}

pub open spec fn child_index(ch: Seq<(String, FsNode)>, name: Seq<char>) -> int {
    choose|i: int| 0 <= i < ch.len() && ch[i].0@ == name
}

/// The child of the given name.
pub open spec fn child_of(ch: Seq<(String, FsNode)>, name: Seq<char>) -> Option<FsNode> {
    if has_child(ch, name) {
        Some(ch[child_index(ch, name)].1)
    } else {
        None
    }
}

/// What the path `p`, relative to `node`, names.
pub open spec fn lookup(node: FsNode, p: Path) -> Option<FsEntry>
    decreases p.len(),
{
    if p.len() == 0 {
        Some(node.entry())
    } else {
        match node {
            FsNode::File { .. } => None,
            FsNode::Directory { children } => {
                match child_of(children@, p[0]) {
                    Some(child) => lookup(child, p.drop_first()),
                    None => None,
                }
            }
        }
    }
}

pub open spec fn sorted_names(ch: Seq<(String, FsNode)>) -> bool {
    forall|i: int, j: int| 0 <= i < j < ch.len() ==> name_lt(#[trigger] ch[i].0@, #[trigger] ch[j].0@)
}

/// Children sorted by name (hence unique), names non-empty, recursively.
pub open spec fn wf_node(node: FsNode) -> bool
    decreases node,
{
    match node {
        FsNode::File { .. } => true,
        FsNode::Directory { children } => {
            &&& sorted_names(children@)
            &&& forall|i: int| 0 <= i < children@.len() ==> (#[trigger] children@[i]).0@.len() > 0
            &&& forall|i: int| 0 <= i < children@.len() ==> wf_node(#[trigger] children@[i].1)
        }
    }
}

proof fn lemma_child_index(ch: Seq<(String, FsNode)>, i: int)
    requires
        sorted_names(ch),
        0 <= i < ch.len(),
    ensures
        has_child(ch, ch[i].0@),
        child_index(ch, ch[i].0@) == i,
{
    let name = ch[i].0@;
    assert(0 <= i < ch.len() && ch[i].0@ == name);
    let j = child_index(ch, name);
    if j < i {
        assert(name_lt(ch[j].0@, ch[i].0@));
        lemma_name_lt_irreflexive(name);
    } else if j > i {
        assert(name_lt(ch[i].0@, ch[j].0@));
        lemma_name_lt_irreflexive(name);
    }
}

/// Looking up below a directory goes through the child of that name.
proof fn lemma_lookup_child(children: Vec<(String, FsNode)>, i: int, q: Path)
    requires
        sorted_names(children@),
        0 <= i < children@.len(),
        q.len() > 0,
        q[0] == children@[i].0@,
    ensures
        lookup(FsNode::Directory { children }, q) == lookup(children@[i].1, q.drop_first()),
{
    lemma_child_index(children@, i);
}

/// Looking up a name that no child has finds nothing.
proof fn lemma_lookup_missing(children: Vec<(String, FsNode)>, q: Path)
    requires
        q.len() > 0,
        forall|i: int| 0 <= i < children@.len() ==> children@[i].0@ != q[0],
    ensures
        lookup(FsNode::Directory { children }, q) == None::<FsEntry>,
{
}

/// Where a name is, or would go, among sorted children.
pub enum Slot {
    Found(usize),
    Vacant(usize),
}

fn find_child(children: &Vec<(String, FsNode)>, name: &Vec<char>) -> (r: Slot)
    requires
        sorted_names(children@),
    ensures
        match r {
            Slot::Found(i) => i < children@.len() && children@[i as int].0@ == name@,
            Slot::Vacant(i) => {
                &&& i <= children@.len()
                &&& forall|j: int| 0 <= j < i ==> name_lt(#[trigger] children@[j].0@, name@)
                &&& forall|j: int| i <= j < children@.len() ==> name_lt(name@, #[trigger] children@[j].0@)
            },
        },
{
    let mut i: usize = 0;
    while i < children.len()
        invariant
            i <= children@.len(),
            sorted_names(children@),
            forall|j: int| 0 <= j < i ==> name_lt(#[trigger] children@[j].0@, name@),
        decreases children.len() - i,
    {
        let cur = chars_of(children[i].0.as_str());
        match compare_names(&cur, name) {
            NameOrder::Equal => {
                return Slot::Found(i);
            },
            NameOrder::Greater => {
                assert forall|j: int| i <= j < children@.len() implies name_lt(name@, #[trigger] children@[j].0@) by {
                    if j > i {
                        lemma_name_lt_transitive(name@, children@[i as int].0@, children@[j].0@);
                    }
                }
                return Slot::Vacant(i);
            },
            NameOrder::Less => {},
        }
        i = i + 1;
    }
    Slot::Vacant(i)
}


// ---------------------------------------------------------------------------
// Writing a file.

pub open spec fn prefix_of(p: Path, q: Path) -> bool {
    p.len() <= q.len() && forall|i: int| 0 <= i < p.len() ==> p[i] == q[i]
}

/// Some directory on the way to `c` (not `c` itself) is a file.
pub open spec fn blocked_at(node: FsNode, c: Path) -> bool {
    exists|k: int| 1 <= k < c.len() && #[trigger] is_file_entry(lookup(node, c.take(k)))
}

/// What `q` names once `content` is written to `c` below `node`: the missing
/// directories on the way are made, and whatever stood at `c` is replaced.
pub open spec fn after_write(node: FsNode, c: Path, content: Seq<u8>, q: Path) -> Option<FsEntry> {
    if c.len() == 0 || blocked_at(node, c) {
        lookup(node, q)
    } else if prefix_of(c, q) {
        if q.len() == c.len() {
            Some(FsEntry::File(content))
        } else {
            None
        }
    } else if prefix_of(q, c) {
        Some(FsEntry::Dir)
    } else {
        lookup(node, q)
    }
}

fn empty_dir() -> (r: FsNode)
    ensures
        r.is_dir(),
        wf_node(r),
        r->children@.len() == 0,
{
    FsNode::Directory { children: Vec::new() }
}

proof fn lemma_lookup_empty_dir(node: FsNode, q: Path)
    requires
        node is Directory,
        node->children@.len() == 0,
    ensures
        lookup(node, q) == (if q.len() == 0 { Some(FsEntry::Dir) } else { None::<FsEntry> }),
{
}

/// Facts about a path that starts with a given name.
proof fn lemma_path_head(c: Path, q: Path)
    requires
        c.len() > 0,
        q.len() > 0,
        q[0] == c[0],
    ensures
        prefix_of(c, q) == prefix_of(c.drop_first(), q.drop_first()),
        prefix_of(q, c) == prefix_of(q.drop_first(), c.drop_first()),
{
    if prefix_of(c.drop_first(), q.drop_first()) {
        assert forall|i: int| 0 <= i < c.len() implies c[i] == q[i] by {
            if i > 0 {
                assert(c.drop_first()[i - 1] == q.drop_first()[i - 1]);
            }
        }
    }
    if prefix_of(q.drop_first(), c.drop_first()) {
        assert forall|i: int| 0 <= i < q.len() implies q[i] == c[i] by {
            if i > 0 {
                assert(q.drop_first()[i - 1] == c.drop_first()[i - 1]);
            }
        }
    }
}

/// Whether `c` is blocked below a directory is decided in the child on its way.
proof fn lemma_blocked_child(children: Vec<(String, FsNode)>, i: int, c: Path)
    requires
        sorted_names(children@),
        0 <= i < children@.len(),
        c.len() > 1,
        c[0] == children@[i].0@,
    ensures
        blocked_at(FsNode::Directory { children }, c) == (is_file_entry(Some(children@[i].1.entry()))
            || blocked_at(children@[i].1, c.drop_first())),
{
    let node = FsNode::Directory { children };
    let child = children@[i].1;
    let c1 = c.drop_first();
    assert(c.take(1).drop_first() =~= Seq::<Seq<char>>::empty());
    lemma_lookup_child(children, i, c.take(1));
    if blocked_at(node, c) {
        let k = choose|k: int| 1 <= k < c.len() && #[trigger] is_file_entry(lookup(node, c.take(k)));
        if k > 1 {
            lemma_lookup_child(children, i, c.take(k));
            assert(c.take(k).drop_first() =~= c1.take(k - 1));
            assert(is_file_entry(lookup(child, c1.take(k - 1))));
        }
    }
    if blocked_at(child, c1) {
        let k = choose|k: int| 1 <= k < c1.len() && #[trigger] is_file_entry(lookup(child, c1.take(k)));
        lemma_lookup_child(children, i, c.take(k + 1));
        assert(c.take(k + 1).drop_first() =~= c1.take(k));
        assert(is_file_entry(lookup(node, c.take(k + 1))));
    }
    if is_file_entry(Some(child.entry())) {
        assert(is_file_entry(lookup(node, c.take(1))));
    }
}

/// A path whose first name no child has is not blocked beyond its first name.
proof fn lemma_blocked_missing(children: Vec<(String, FsNode)>, c: Path)
    requires
        c.len() > 0,
        forall|i: int| 0 <= i < children@.len() ==> children@[i].0@ != c[0],
    ensures
        !blocked_at(FsNode::Directory { children }, c),
{
    let node = FsNode::Directory { children };
    if blocked_at(node, c) {
        let k = choose|k: int| 1 <= k < c.len() && #[trigger] is_file_entry(lookup(node, c.take(k)));
        assert(c.take(k)[0] == c[0]);
        lemma_lookup_missing(children, c.take(k));
    }
}

/// Inserting a name at its sorted place keeps the children sorted.
proof fn lemma_sorted_insert(ch: Seq<(String, FsNode)>, j: int, x: (String, FsNode))
    requires
        sorted_names(ch),
        0 <= j <= ch.len(),
        forall|k: int| 0 <= k < j ==> name_lt(#[trigger] ch[k].0@, x.0@),
        forall|k: int| j <= k < ch.len() ==> name_lt(x.0@, #[trigger] ch[k].0@),
    ensures
        sorted_names(ch.insert(j, x)),
{
    let n = ch.insert(j, x);
    assert forall|a: int, b: int| 0 <= a < b < n.len() implies name_lt(#[trigger] n[a].0@, #[trigger] n[b].0@) by {
        if a < j && b < j {
        } else if a < j && b == j {
        } else if a < j {
            assert(n[b] == ch[b - 1]);
        } else if a == j {
            assert(n[b] == ch[b - 1]);
        } else {
            assert(n[a] == ch[a - 1]);
            assert(n[b] == ch[b - 1]);
        }
    }
}

/// Replacing the entry at `j` leaves the other names' children alone.
proof fn lemma_child_of_update(ch: Seq<(String, FsNode)>, j: int, x: (String, FsNode), name: Seq<char>)
    requires
        sorted_names(ch),
        sorted_names(ch.update(j, x)),
        0 <= j < ch.len(),
        x.0@ == ch[j].0@,
    ensures
        child_of(ch.update(j, x), name) == (if name == x.0@ { Some(x.1) } else { child_of(ch, name) }),
{
    let n = ch.update(j, x);
    lemma_child_index(n, j);
    lemma_child_index(ch, j);
    if name != x.0@ {
        if has_child(ch, name) {
            let i = child_index(ch, name);
            lemma_child_index(ch, i);
            assert(n[i] == ch[i]);
            lemma_child_index(n, i);
        } else if has_child(n, name) {
            let i = child_index(n, name);
            assert(n[i] == ch[i]);
        }
    }
}

/// Inserting an entry at `j` leaves the other names' children alone.
proof fn lemma_child_of_insert(ch: Seq<(String, FsNode)>, j: int, x: (String, FsNode), name: Seq<char>)
    requires
        sorted_names(ch),
        sorted_names(ch.insert(j, x)),
        0 <= j <= ch.len(),
    ensures
        child_of(ch.insert(j, x), name) == (if name == x.0@ { Some(x.1) } else { child_of(ch, name) }),
{
    let n = ch.insert(j, x);
    lemma_child_index(n, j);
    if name != x.0@ {
        if has_child(ch, name) {
            let i = child_index(ch, name);
            lemma_child_index(ch, i);
            if i < j {
                assert(n[i] == ch[i]);
                lemma_child_index(n, i);
            } else {
                assert(n[i + 1] == ch[i]);
                lemma_child_index(n, i + 1);
            }
        } else if has_child(n, name) {
            let i = child_index(n, name);
            if i < j {
                assert(n[i] == ch[i]);
            } else {
                assert(n[i] == ch[i - 1]);
            }
        }
    }
}

/// Writes `content` at `comps[i..]` below the directory `node`.
fn write_at(node: FsNode, comps: &Vec<Vec<char>>, i: usize, content: &[u8]) -> (r: FsNode)
    requires
        wf_node(node),
        node.is_dir(),
        i < comps@.len(),
        valid_names(views(comps@)),
    ensures
        wf_node(r),
        r.is_dir(),
        forall|q: Path| #[trigger] lookup(r, q) == after_write(node, views(comps@).skip(i as int), content@, q),
    decreases comps@.len() - i,
{
    let ghost c = views(comps@).skip(i as int);
    let ghost old_node = node;
    assert(c[0] == comps@[i as int]@);
    match node {
        FsNode::File { .. } => {
            proof { assert(false); }
            node
        },
        FsNode::Directory { mut children } => {
            let ghost old_children = children;
            let name = &comps[i];
            let slot = find_child(&children, name);
            if i == comps.len() - 1 {
                assert(c.len() == 1);
                assert(!blocked_at(old_node, c));
                let file = FsNode::File { content: vstd::slice::slice_to_vec(content) };
                let ghost entry: (String, FsNode);
                match slot {
                    Slot::Found(j) => {
                        let (nm, _old) = children.remove(j);
                        proof { entry = (nm, file); }
                        children.insert(j, (nm, file));
                        assert(children@ =~= old_children@.update(j as int, entry));
                        proof {
                            assert forall|q: Path| q.len() > 0 implies #[trigger] child_of(children@, q[0])
                                == (if q[0] == name@ { Some(file) } else { child_of(old_children@, q[0]) }) by {
                                lemma_child_of_update(old_children@, j as int, entry, q[0]);
                            }
                        }
                    },
                    Slot::Vacant(j) => {
                        let nm = string_from_chars(name);
                        proof { entry = (nm, file); }
                        children.insert(j, (nm, file));
                        assert(children@ =~= old_children@.insert(j as int, entry));
                        proof {
                            lemma_sorted_insert(old_children@, j as int, entry);
                            assert forall|q: Path| q.len() > 0 implies #[trigger] child_of(children@, q[0])
                                == (if q[0] == name@ { Some(file) } else { child_of(old_children@, q[0]) }) by {
                                lemma_child_of_insert(old_children@, j as int, entry, q[0]);
                            }
                        }
                    },
                }
                assert(sorted_names(children@)) by {
                    assert forall|a: int, b: int| 0 <= a < b < children@.len() implies
                        name_lt(#[trigger] children@[a].0@, #[trigger] children@[b].0@) by {
                        match slot {
                            Slot::Found(j) => {
                                assert(children@[a].0@ == old_children@[a].0@);
                                assert(children@[b].0@ == old_children@[b].0@);
                            },
                            Slot::Vacant(j) => {},
                        }
                    }
                }
                assert(forall|k: int| 0 <= k < children@.len() ==> (#[trigger] children@[k]).0@.len() > 0);
                assert(forall|k: int| 0 <= k < children@.len() ==> wf_node(#[trigger] children@[k].1));
                let r = FsNode::Directory { children };
                proof {
                    assert forall|q: Path| #[trigger] lookup(r, q) == after_write(old_node, c, content@, q) by {
                        if q.len() == 0 {
                        } else if q[0] == name@ {
                            lemma_path_head(c, q);
                            assert(c.drop_first().len() == 0);
                            assert(child_of(children@, q[0]) == Some(file));
                            assert(lookup(r, q) == lookup(file, q.drop_first()));
                            assert(prefix_of(c, q));
                            if q.len() == 1 {
                                assert(lookup(file, q.drop_first()) == Some(FsEntry::File(content@)));
                            } else {
                                assert(lookup(file, q.drop_first()) == None::<FsEntry>);
                            }
                        } else {
                            assert(!prefix_of(c, q));
                            assert(!prefix_of(q, c));
                        }
                    }
                }
                r
            } else {
                let ghost c1 = views(comps@).skip(i + 1);
                assert(c1 =~= c.drop_first());
                let ghost newc: FsNode;
                match slot {
                    Slot::Found(j) => {
                        let child_is_file = match &children[j].1 {
                            FsNode::File { .. } => true,
                            FsNode::Directory { .. } => false,
                        };
                        if child_is_file {
                            proof {
                                lemma_blocked_child(children, j as int, c);
                            }
                            let same = FsNode::Directory { children };
                            assert(same == old_node);
                            return same;
                        }
                        let (nm, child) = children.remove(j);
                        assert(old_children@[j as int] == (nm, child));
                        proof {
                            lemma_blocked_child(old_children, j as int, c);
                        }
                        let written = write_at(child, comps, i + 1, content);
                        proof {
                            newc = written;
                            assert forall|q: Path| q.len() > 0 && q[0] == name@ implies
                                #[trigger] lookup(old_node, q) == lookup(child, q.drop_first()) by {
                                lemma_child_index(old_children@, j as int);
                            }
                        }
                        children.insert(j, (nm, written));
                        assert(children@ =~= old_children@.update(j as int, (nm, newc)));
                        assert(sorted_names(children@)) by {
                            assert forall|a: int, b: int| 0 <= a < b < children@.len() implies
                                name_lt(#[trigger] children@[a].0@, #[trigger] children@[b].0@) by {
                                assert(children@[a].0@ == old_children@[a].0@);
                                assert(children@[b].0@ == old_children@[b].0@);
                            }
                        }
                        assert(forall|k: int| 0 <= k < children@.len() ==> (#[trigger] children@[k]).0@.len() > 0);
                        assert(forall|k: int| 0 <= k < children@.len() ==> wf_node(#[trigger] children@[k].1));
                        proof {
                            assert forall|q: Path| q.len() > 0 implies #[trigger] child_of(children@, q[0])
                                == (if q[0] == name@ { Some(newc) } else { child_of(old_children@, q[0]) }) by {
                                lemma_child_of_update(old_children@, j as int, (nm, newc), q[0]);
                            }
                            assert forall|q: Path| q.len() > 0 && q[0] == name@ implies
                                after_write(old_node, c, content@, q) == #[trigger] after_write(child, c1, content@, q.drop_first()) by {
                                lemma_path_head(c, q);
                            }
                        }
                    },
                    Slot::Vacant(j) => {
                        let fresh = empty_dir();
                        let ghost fresh_node = fresh;
                        let written = write_at(fresh, comps, i + 1, content);
                        let nm = string_from_chars(name);
                        proof {
                            newc = written;
                            lemma_sorted_insert(old_children@, j as int, (nm, newc));
                            assert forall|k: int| 0 <= k < old_children@.len() implies old_children@[k].0@ != c[0] by {
                                if k < j {
                                    lemma_name_lt_asymmetric(old_children@[k].0@, name@);
                                } else {
                                    lemma_name_lt_asymmetric(name@, old_children@[k].0@);
                                }
                            }
                            lemma_blocked_missing(old_children, c);
                            assert(!blocked_at(fresh_node, c1)) by {
                                if blocked_at(fresh_node, c1) {
                                    let k = choose|k: int| 1 <= k < c1.len() && #[trigger] is_file_entry(lookup(fresh_node, c1.take(k)));
                                    lemma_lookup_empty_dir(fresh_node, c1.take(k));
                                }
                            }
                            assert forall|q: Path| q.len() > 0 && q[0] == name@ implies
                                after_write(old_node, c, content@, q) == #[trigger] after_write(fresh_node, c1, content@, q.drop_first()) by {
                                lemma_path_head(c, q);
                                lemma_lookup_empty_dir(fresh_node, q.drop_first());
                                assert(child_of(old_children@, q[0]) == None::<FsNode>);
                                if q.drop_first().len() == 0 {
                                    assert(prefix_of(q.drop_first(), c1));
                                }
                            }
                        }
                        children.insert(j, (nm, written));
                        assert(children@ =~= old_children@.insert(j as int, (nm, newc)));
                        assert(forall|k: int| 0 <= k < children@.len() ==> (#[trigger] children@[k]).0@.len() > 0);
                        assert(forall|k: int| 0 <= k < children@.len() ==> wf_node(#[trigger] children@[k].1));
                        proof {
                            assert forall|q: Path| q.len() > 0 implies #[trigger] child_of(children@, q[0])
                                == (if q[0] == name@ { Some(newc) } else { child_of(old_children@, q[0]) }) by {
                                lemma_child_of_insert(old_children@, j as int, (nm, newc), q[0]);
                            }
                        }
                    },
                }
                let r = FsNode::Directory { children };
                proof {
                    assert forall|q: Path| #[trigger] lookup(r, q) == after_write(old_node, c, content@, q) by {
                        if q.len() == 0 {
                        } else if q[0] == name@ {
                            assert(lookup(r, q) == lookup(newc, q.drop_first()));
                        } else {
                            assert(!prefix_of(c, q));
                            assert(!prefix_of(q, c));
                        }
                    }
                }
                r
            }
        },
    }
}

// ---------------------------------------------------------------------------
// Making a directory.

/// What `q` names once the directory `c` is made below `node`.
pub open spec fn after_mkdir(node: FsNode, c: Path, q: Path) -> Option<FsEntry> {
    if c.len() == 0 || blocked_at(node, c) || !prefix_of(q, c) || lookup(node, q) is Some {
        lookup(node, q)
    } else {
        Some(FsEntry::Dir)
    }
}

proof fn lemma_sorted_update_same_name(old_ch: Seq<(String, FsNode)>, j: int, x: (String, FsNode))
    requires
        sorted_names(old_ch),
        0 <= j < old_ch.len(),
        x.0@ == old_ch[j].0@,
    ensures
        sorted_names(old_ch.update(j, x)),
{
    let n = old_ch.update(j, x);
    assert forall|a: int, b: int| 0 <= a < b < n.len() implies name_lt(#[trigger] n[a].0@, #[trigger] n[b].0@) by {
        assert(n[a].0@ == old_ch[a].0@);
        assert(n[b].0@ == old_ch[b].0@);
    }
}

proof fn lemma_vacant_differs(ch: Seq<(String, FsNode)>, j: int, name: Seq<char>)
    requires
        0 <= j <= ch.len(),
        forall|k: int| 0 <= k < j ==> name_lt(#[trigger] ch[k].0@, name),
        forall|k: int| j <= k < ch.len() ==> name_lt(name, #[trigger] ch[k].0@),
    ensures
        forall|k: int| 0 <= k < ch.len() ==> ch[k].0@ != name,
{
    assert forall|k: int| 0 <= k < ch.len() implies ch[k].0@ != name by {
        if k < j {
            lemma_name_lt_asymmetric(ch[k].0@, name);
        } else {
            lemma_name_lt_asymmetric(name, ch[k].0@);
        }
    }
}

/// Makes the directory `comps[i..]` below the directory `node`.
fn mkdir_at(node: FsNode, comps: &Vec<Vec<char>>, i: usize) -> (r: FsNode)
    requires
        wf_node(node),
        node.is_dir(),
        i < comps@.len(),
        valid_names(views(comps@)),
    ensures
        wf_node(r),
        r.is_dir(),
        forall|q: Path| #[trigger] lookup(r, q) == after_mkdir(node, views(comps@).skip(i as int), q),
    decreases comps@.len() - i,
{
    let ghost c = views(comps@).skip(i as int);
    let ghost old_node = node;
    assert(c[0] == comps@[i as int]@);
    match node {
        FsNode::File { .. } => {
            proof { assert(false); }
            node
        },
        FsNode::Directory { mut children } => {
            let ghost old_children = children;
            let name = &comps[i];
            let last = i == comps.len() - 1;
            let ghost c1 = views(comps@).skip(i + 1);
            assert(c1 =~= c.drop_first());
            let slot = find_child(&children, name);
            let ghost newc: FsNode;
            match slot {
                Slot::Found(j) => {
                    let child_is_file = match &children[j].1 {
                        FsNode::File { .. } => true,
                        FsNode::Directory { .. } => false,
                    };
                    if last || child_is_file {
                        proof {
                            if !last {
                                lemma_blocked_child(children, j as int, c);
                            }
                            assert forall|q: Path| #[trigger] lookup(old_node, q) == after_mkdir(old_node, c, q) by {
                                if last && q.len() > 0 && prefix_of(q, c) {
                                    assert(q =~= c);
                                    lemma_lookup_child(old_children, j as int, q);
                                }
                            }
                        }
                        let same = FsNode::Directory { children };
                        assert(same == old_node);
                        return same;
                    }
                    let (nm, child) = children.remove(j);
                    assert(old_children@[j as int] == (nm, child));
                    proof {
                        lemma_blocked_child(old_children, j as int, c);
                    }
                    let made = mkdir_at(child, comps, i + 1);
                    proof {
                        newc = made;
                        assert forall|q: Path| q.len() > 0 && q[0] == name@ implies
                            #[trigger] lookup(old_node, q) == lookup(child, q.drop_first()) by {
                            lemma_child_index(old_children@, j as int);
                        }
                        assert forall|q: Path| q.len() > 0 && q[0] == name@ implies
                            after_mkdir(old_node, c, q) == #[trigger] after_mkdir(child, c1, q.drop_first()) by {
                            lemma_path_head(c, q);
                        }
                    }
                    children.insert(j, (nm, made));
                    assert(children@ =~= old_children@.update(j as int, (nm, newc)));
                    proof {
                        lemma_sorted_update_same_name(old_children@, j as int, (nm, newc));
                        assert forall|q: Path| q.len() > 0 implies #[trigger] child_of(children@, q[0])
                            == (if q[0] == name@ { Some(newc) } else { child_of(old_children@, q[0]) }) by {
                            lemma_child_of_update(old_children@, j as int, (nm, newc), q[0]);
                        }
                    }
                },
                Slot::Vacant(j) => {
                    proof {
                        lemma_vacant_differs(old_children@, j as int, name@);
                        lemma_blocked_missing(old_children, c);
                    }
                    let fresh = empty_dir();
                    let ghost fresh_node = fresh;
                    let made = if last {
                        fresh
                    } else {
                        proof {
                            assert(!blocked_at(fresh_node, c1)) by {
                                if blocked_at(fresh_node, c1) {
                                    let k = choose|k: int| 1 <= k < c1.len() && #[trigger] is_file_entry(lookup(fresh_node, c1.take(k)));
                                    lemma_lookup_empty_dir(fresh_node, c1.take(k));
                                }
                            }
                        }
                        mkdir_at(fresh, comps, i + 1)
                    };
                    let nm = string_from_chars(name);
                    proof {
                        newc = made;
                        lemma_sorted_insert(old_children@, j as int, (nm, newc));
                        assert forall|q: Path| q.len() > 0 && q[0] == name@ implies
                            #[trigger] lookup(newc, q.drop_first()) == after_mkdir(old_node, c, q) by {
                            lemma_path_head(c, q);
                            lemma_lookup_empty_dir(fresh_node, q.drop_first());
                            assert(child_of(old_children@, q[0]) == None::<FsNode>);
                            if q.drop_first().len() == 0 {
                                assert(prefix_of(q.drop_first(), c1));
                            }
                            if last {
                                assert(c1.len() == 0);
                            } else {
                                assert(lookup(newc, q.drop_first()) == after_mkdir(fresh_node, c1, q.drop_first()));
                            }
                        }
                    }
                    children.insert(j, (nm, made));
                    assert(children@ =~= old_children@.insert(j as int, (nm, newc)));
                    proof {
                        assert forall|q: Path| q.len() > 0 implies #[trigger] child_of(children@, q[0])
                            == (if q[0] == name@ { Some(newc) } else { child_of(old_children@, q[0]) }) by {
                            lemma_child_of_insert(old_children@, j as int, (nm, newc), q[0]);
                        }
                    }
                },
            }
            assert(forall|k: int| 0 <= k < children@.len() ==> (#[trigger] children@[k]).0@.len() > 0);
            assert(forall|k: int| 0 <= k < children@.len() ==> wf_node(#[trigger] children@[k].1));
            let r = FsNode::Directory { children };
            proof {
                assert forall|q: Path| #[trigger] lookup(r, q) == after_mkdir(old_node, c, q) by {
                    if q.len() == 0 {
                    } else if q[0] == name@ {
                        assert(lookup(r, q) == lookup(newc, q.drop_first()));
                    } else {
                        assert(!prefix_of(q, c));
                    }
                }
            }
            r
        },
    }
}

// ---------------------------------------------------------------------------
// Finding and removing.

/// The node that the path `p`, relative to `node`, leads to.
pub open spec fn node_at(node: FsNode, p: Path) -> Option<FsNode>
    decreases p.len(),
{
    if p.len() == 0 {
        Some(node)
    } else {
        match node {
            FsNode::File { .. } => None,
            FsNode::Directory { children } => {
                match child_of(children@, p[0]) {
                    Some(child) => node_at(child, p.drop_first()),
                    None => None,
                }
            }
        }
    }
}

proof fn lemma_node_at(node: FsNode, p: Path)
    requires
        wf_node(node),
    ensures
        lookup(node, p) == (match node_at(node, p) {
            Some(n) => Some(n.entry()),
            None => None,
        }),
        node_at(node, p) matches Some(n) ==> wf_node(n),
    decreases p.len(),
{
    if p.len() > 0 {
        if let FsNode::Directory { children } = node {
            if has_child(children@, p[0]) {
                let i = child_index(children@, p[0]);
                assert(wf_node(children@[i].1));
                lemma_node_at(children@[i].1, p.drop_first());
            }
        }
    }
}

/// The node at `comps[i..]` below `node`.
fn resolve_at<'a>(node: &'a FsNode, comps: &Vec<Vec<char>>, i: usize) -> (r: Option<&'a FsNode>)
    requires
        wf_node(*node),
        i <= comps@.len(),
    ensures
        r == (match node_at(*node, views(comps@).skip(i as int)) {
            Some(n) => Some(&n),
            None => None,
        }),
    decreases comps@.len() - i,
{
    let ghost c = views(comps@).skip(i as int);
    if i == comps.len() {
        assert(c.len() == 0);
        return Some(node);
    }
    assert(c[0] == comps@[i as int]@);
    assert(views(comps@).skip(i + 1) =~= c.drop_first());
    match node {
        FsNode::File { .. } => None,
        FsNode::Directory { children } => {
            match find_child(children, &comps[i]) {
                Slot::Found(j) => {
                    proof { lemma_child_index(children@, j as int); }
                    resolve_at(&children[j].1, comps, i + 1)
                },
                Slot::Vacant(j) => {
                    proof { lemma_vacant_differs(children@, j as int, comps@[i as int]@); }
                    None
                },
            }
        },
    }
}

/// What `q` names once `c`, and everything below it, is removed from `node`.
pub open spec fn after_delete(node: FsNode, c: Path, q: Path) -> Option<FsEntry> {
    if lookup(node, c) is Some && prefix_of(c, q) {
        None
    } else {
        lookup(node, q)
    }
}

/// Removing the entry at `j` leaves the other names' children alone.
proof fn lemma_child_of_remove(ch: Seq<(String, FsNode)>, j: int, name: Seq<char>)
    requires
        sorted_names(ch),
        0 <= j < ch.len(),
    ensures
        sorted_names(ch.remove(j)),
        child_of(ch.remove(j), name) == (if name == ch[j].0@ { None } else { child_of(ch, name) }),
{
    let n = ch.remove(j);
    assert forall|a: int, b: int| 0 <= a < b < n.len() implies name_lt(#[trigger] n[a].0@, #[trigger] n[b].0@) by {
        if a < j && b < j {
        } else if a < j {
            assert(n[b] == ch[b + 1]);
        } else {
            assert(n[a] == ch[a + 1]);
            assert(n[b] == ch[b + 1]);
        }
    }
    lemma_child_index(ch, j);
    if name == ch[j].0@ {
        if has_child(n, name) {
            let i = child_index(n, name);
            if i < j {
                assert(n[i] == ch[i]);
                assert(name_lt(ch[i].0@, ch[j].0@));
            } else {
                assert(n[i] == ch[i + 1]);
                assert(name_lt(ch[j].0@, ch[i + 1].0@));
            }
            lemma_name_lt_irreflexive(name);
        }
    } else {
        if has_child(ch, name) {
            let i = child_index(ch, name);
            lemma_child_index(ch, i);
            if i < j {
                assert(n[i] == ch[i]);
                lemma_child_index(n, i);
            } else {
                assert(i != j);
                assert(n[i - 1] == ch[i]);
                lemma_child_index(n, i - 1);
            }
        } else if has_child(n, name) {
            let i = child_index(n, name);
            if i < j {
                assert(n[i] == ch[i]);
            } else {
                assert(n[i] == ch[i + 1]);
            }
        }
    }
}

/// Removes `comps[i..]`, and everything below it, from the directory `node`;
/// tells whether it was there.
fn delete_at(node: FsNode, comps: &Vec<Vec<char>>, i: usize) -> (r: (FsNode, bool))
    requires
        wf_node(node),
        node.is_dir(),
        i < comps@.len(),
    ensures
        wf_node(r.0),
        r.0.is_dir(),
        r.1 == lookup(node, views(comps@).skip(i as int)) is Some,
        forall|q: Path| #[trigger] lookup(r.0, q) == after_delete(node, views(comps@).skip(i as int), q),
    decreases comps@.len() - i,
{
    let ghost c = views(comps@).skip(i as int);
    let ghost old_node = node;
    assert(c[0] == comps@[i as int]@);
    match node {
        FsNode::File { .. } => {
            proof { assert(false); }
            (node, false)
        },
        FsNode::Directory { mut children } => {
            let ghost old_children = children;
            let name = &comps[i];
            let ghost c1 = views(comps@).skip(i + 1);
            assert(c1 =~= c.drop_first());
            match find_child(&children, name) {
                Slot::Vacant(j) => {
                    proof {
                        lemma_vacant_differs(old_children@, j as int, name@);
                        lemma_lookup_missing(old_children, c);
                    }
                    (FsNode::Directory { children }, false)
                },
                Slot::Found(j) => {
                    proof {
                        lemma_child_index(old_children@, j as int);
                        assert forall|q: Path| q.len() > 0 && q[0] == name@ implies
                            #[trigger] lookup(old_node, q) == lookup(old_children@[j as int].1, q.drop_first()) by {}
                    }
                    if i == comps.len() - 1 {
                        let _gone = children.remove(j);
                        assert(children@ =~= old_children@.remove(j as int));
                        proof {
                            assert forall|q: Path| q.len() > 0 implies #[trigger] child_of(children@, q[0])
                                == (if q[0] == name@ { None } else { child_of(old_children@, q[0]) }) by {
                                lemma_child_of_remove(old_children@, j as int, q[0]);
                            }
                            lemma_child_of_remove(old_children@, j as int, name@);
                            assert(forall|k: int| 0 <= k < children@.len() ==> (#[trigger] children@[k]).0@.len() > 0);
                            assert(forall|k: int| 0 <= k < children@.len() ==> wf_node(#[trigger] children@[k].1));
                        }
                        let r = FsNode::Directory { children };
                        proof {
                            assert forall|q: Path| #[trigger] lookup(r, q) == after_delete(old_node, c, q) by {
                                if q.len() > 0 && q[0] == name@ {
                                    assert(prefix_of(c, q));
                                } else if q.len() > 0 {
                                    assert(!prefix_of(c, q));
                                }
                            }
                        }
                        return (r, true);
                    }
                    let child_is_file = match &children[j].1 {
                        FsNode::File { .. } => true,
                        FsNode::Directory { .. } => false,
                    };
                    if child_is_file {
                        let same = FsNode::Directory { children };
                        assert(same == old_node);
                        return (same, false);
                    }
                    let (nm, child) = children.remove(j);
                    assert(old_children@[j as int] == (nm, child));
                    let (newc, found) = delete_at(child, comps, i + 1);
                    children.insert(j, (nm, newc));
                    assert(children@ =~= old_children@.update(j as int, (nm, newc)));
                    proof {
                        lemma_sorted_update_same_name(old_children@, j as int, (nm, newc));
                        assert forall|q: Path| q.len() > 0 implies #[trigger] child_of(children@, q[0])
                            == (if q[0] == name@ { Some(newc) } else { child_of(old_children@, q[0]) }) by {
                            lemma_child_of_update(old_children@, j as int, (nm, newc), q[0]);
                        }
                        assert(forall|k: int| 0 <= k < children@.len() ==> (#[trigger] children@[k]).0@.len() > 0);
                        assert(forall|k: int| 0 <= k < children@.len() ==> wf_node(#[trigger] children@[k].1));
                    }
                    let r = FsNode::Directory { children };
                    proof {
                        assert forall|q: Path| #[trigger] lookup(r, q) == after_delete(old_node, c, q) by {
                            if q.len() > 0 && q[0] == name@ {
                                lemma_path_head(c, q);
                                assert(lookup(r, q) == lookup(newc, q.drop_first()));
                            } else if q.len() > 0 {
                                assert(!prefix_of(c, q));
                            }
                        }
                    }
                    (r, found)
                },
            }
        },
    }
}

// ---------------------------------------------------------------------------
// Listing.

/// Looking up `p + q` goes through the node that `p` leads to.
proof fn lemma_lookup_concat(node: FsNode, p: Path, q: Path)
    requires
        node_at(node, p) is Some,
    ensures
        lookup(node, p + q) == lookup(node_at(node, p)->0, q),
    decreases p.len(),
{
    if p.len() > 0 {
        if let FsNode::Directory { children } = node {
            let child = child_of(children@, p[0])->0;
            assert((p + q)[0] == p[0]);
            assert((p + q).drop_first() =~= p.drop_first() + q);
            lemma_lookup_concat(child, p.drop_first(), q);
        }
    } else {
        assert(p + q =~= q);
    }
}

/// The children of `c`, as (name, is a directory) pairs in name order.
pub open spec fn is_listing(m: Map<Path, FsEntry>, c: Path, l: Seq<(String, bool)>) -> bool {
    &&& forall|i: int, j: int| 0 <= i < j < l.len() ==> name_lt(#[trigger] l[i].0@, #[trigger] l[j].0@)
    &&& forall|i: int| 0 <= i < l.len() ==> (#[trigger] entry_in(m, c.push(l[i].0@))) is Some
    &&& forall|i: int| 0 <= i < l.len() ==> (l[i].1 <==> #[trigger] entry_in(m, c.push(l[i].0@)) == Some(FsEntry::Dir))
    &&& forall|name: Seq<char>| #[trigger] entry_in(m, c.push(name)) is Some ==> exists|i: int| 0 <= i < l.len() && l[i].0@ == name
}

/// The number of children of a directory.
pub open spec fn child_count(node: FsNode) -> nat {
    match node {
        FsNode::File { .. } => 0,
        FsNode::Directory { children } => children@.len(),
    }
}

/// The paths of the files below `node` reached through its first `k`
/// children, relative to `node`, in the order of a walk that visits the
/// children by name order; a file lists itself as the empty path.
pub open spec fn files_from(node: FsNode, k: nat) -> Seq<Path>
    decreases node, k,
{
    match node {
        FsNode::File { .. } => seq![Seq::empty()],
        FsNode::Directory { children } => {
            if k == 0 {
                Seq::empty()
            } else if k > children@.len() {
                files_from(node, children@.len())
            } else {
                let entry = children@[k - 1];
                files_from(node, (k - 1) as nat)
                    + files_from(entry.1, child_count(entry.1)).map_values(|p: Path| seq![entry.0@] + p)
            }
        },
    }
}

pub open spec fn files_below(node: FsNode) -> Seq<Path> {
    files_from(node, child_count(node))
}

/// Lexicographic order on paths, name by name.
pub open spec fn path_lt(p: Path, q: Path) -> bool
    decreases p.len(),
{
    if p.len() == 0 {
        q.len() > 0
    } else if q.len() == 0 {
        false
    } else if p[0] != q[0] {
        name_lt(p[0], q[0])
    } else {
        path_lt(p.drop_first(), q.drop_first())
    }
}

/// A path written with '/' between its names.
pub open spec fn join_path(p: Path) -> Seq<char>
    decreases p.len(),
{
    if p.len() == 0 {
        Seq::empty()
    } else if p.len() == 1 {
        p[0]
    } else {
        join_path(p.drop_last()) + seq!['/'] + p.last()
    }
}

proof fn lemma_join_nonempty(p: Path)
    requires
        forall|i: int| 0 <= i < p.len() ==> p[i].len() > 0,
    ensures
        (join_path(p).len() == 0) == (p.len() == 0),
    decreases p.len(),
{
    if p.len() > 1 {
        lemma_join_nonempty(p.drop_last());
    }
}

/// Every listed path names a file; paths of a directory's files are not empty.
proof fn lemma_files_from_sound(node: FsNode, k: nat)
    requires
        wf_node(node),
    ensures
        forall|i: int| 0 <= i < files_from(node, k).len() ==>
            #[trigger] is_file_entry(lookup(node, files_from(node, k)[i])),
        node is Directory ==> forall|i: int| 0 <= i < files_from(node, k).len() ==>
            (#[trigger] files_from(node, k)[i]).len() > 0,
        node is Directory ==> forall|i: int| 0 <= i < files_from(node, k).len() ==>
            exists|j: int| 0 <= j < k && j < child_count(node) && (#[trigger] files_from(node, k)[i])[0] == node->children@[j].0@,
    decreases node, k,
{
    if let FsNode::Directory { children } = node {
        if k > children@.len() {
            lemma_files_from_sound(node, children@.len());
        } else if k > 0 {
            let entry = children@[k - 1];
            assert(wf_node(entry.1));
            lemma_files_from_sound(node, (k - 1) as nat);
            lemma_files_from_sound(entry.1, child_count(entry.1));
            let a = files_from(node, (k - 1) as nat);
            let sub = files_from(entry.1, child_count(entry.1));
            let b = sub.map_values(|p: Path| seq![entry.0@] + p);
            assert(files_from(node, k) == a + b);
            assert forall|i: int| 0 <= i < files_from(node, k).len() implies
                #[trigger] is_file_entry(lookup(node, files_from(node, k)[i]))
                && files_from(node, k)[i].len() > 0
                && exists|j: int| 0 <= j < k && j < child_count(node) && files_from(node, k)[i][0] == node->children@[j].0@ by {
                if i < a.len() {
                    assert(files_from(node, k)[i] == a[i]);
                } else {
                    let p = sub[i - a.len()];
                    assert(files_from(node, k)[i] == seq![entry.0@] + p);
                    let q = seq![entry.0@] + p;
                    assert(q[0] == entry.0@);
                    assert(q.drop_first() =~= p);
                    lemma_lookup_child(children, k - 1, q);
                    assert(q[0] == node->children@[k - 1].0@);
                }
            }
        }
    }
}

/// Every file below `node`, reached through its first `k` children, is listed.
proof fn lemma_files_from_complete(node: FsNode, k: nat, p: Path)
    requires
        wf_node(node),
        is_file_entry(lookup(node, p)),
        node is Directory ==> p.len() > 0 && child_index(node->children@, p[0]) < k,
    ensures
        files_from(node, k).contains(p),
    decreases node, k,
{
    match node {
        FsNode::File { .. } => {
            assert(p.len() == 0);
            assert(p =~= Seq::<Seq<char>>::empty());
            assert(files_from(node, k)[0] == p);
        },
        FsNode::Directory { children } => {
            if k > children@.len() {
                lemma_files_from_complete(node, children@.len(), p);
            } else {
                let i = child_index(children@, p[0]);
                assert(has_child(children@, p[0]));
                let a = files_from(node, (k - 1) as nat);
                let entry = children@[k - 1];
                let sub = files_from(entry.1, child_count(entry.1));
                let b = sub.map_values(|p: Path| seq![entry.0@] + p);
                assert(files_from(node, k) == a + b);
                if i < k - 1 {
                    lemma_files_from_complete(node, (k - 1) as nat, p);
                    let x = choose|x: int| 0 <= x < a.len() && a[x] == p;
                    assert((a + b)[x] == p);
                } else {
                    assert(wf_node(entry.1));
                    let rest = p.drop_first();
                    assert(lookup(node, p) == lookup(entry.1, rest));
                    if entry.1 is Directory {
                        assert(rest.len() > 0);
                        let ci = child_index(entry.1->children@, rest[0]);
                        assert(ci < child_count(entry.1));
                    }
                    lemma_files_from_complete(entry.1, child_count(entry.1), rest);
                    let x = choose|x: int| 0 <= x < sub.len() && sub[x] == rest;
                    assert(b[x] == seq![entry.0@] + rest);
                    assert(seq![entry.0@] + rest =~= p);
                    assert((a + b)[a.len() + x] == p);
                }
            }
        },
    }
}

/// The listing walks the files in path order.
proof fn lemma_files_from_sorted(node: FsNode, k: nat)
    requires
        wf_node(node),
    ensures
        forall|i: int, j: int| 0 <= i < j < files_from(node, k).len() ==>
            path_lt(#[trigger] files_from(node, k)[i], #[trigger] files_from(node, k)[j]),
    decreases node, k,
{
    if let FsNode::Directory { children } = node {
        if k > children@.len() {
            lemma_files_from_sorted(node, children@.len());
            assert(files_from(node, k) == files_from(node, children@.len()));
        } else if k > 0 {
            let entry = children@[k - 1];
            assert(wf_node(entry.1));
            lemma_files_from_sorted(node, (k - 1) as nat);
            lemma_files_from_sorted(entry.1, child_count(entry.1));
            lemma_files_from_sound(node, (k - 1) as nat);
            let a = files_from(node, (k - 1) as nat);
            let sub = files_from(entry.1, child_count(entry.1));
            let b = sub.map_values(|p: Path| seq![entry.0@] + p);
            let all = files_from(node, k);
            assert(all == a + b);
            assert forall|i: int, j: int| 0 <= i < j < all.len() implies path_lt(#[trigger] all[i], #[trigger] all[j]) by {
                if j < a.len() {
                    assert(all[i] == a[i] && all[j] == a[j]);
                } else if i < a.len() {
                    assert(all[i] == a[i]);
                    let q = seq![entry.0@] + sub[j - a.len()];
                    assert(all[j] == q);
                    assert(q[0] == entry.0@);
                    let jj = choose|jj: int| 0 <= jj < k - 1 && jj < child_count(node) && a[i][0] == node->children@[jj].0@;
                    assert(name_lt(children@[jj].0@, children@[k - 1].0@));
                    lemma_name_lt_asymmetric(children@[jj].0@, children@[k - 1].0@);
                } else {
                    let p1 = sub[i - a.len()];
                    let p2 = sub[j - a.len()];
                    let q1 = seq![entry.0@] + p1;
                    let q2 = seq![entry.0@] + p2;
                    assert(all[i] == q1 && all[j] == q2);
                    assert(q1.drop_first() =~= p1);
                    assert(q2.drop_first() =~= p2);
                    assert(path_lt(p1, p2));
                }
            }
        }
    }
}

/// `l` holds, in path order, the '/'-joined forms of `ps`, which are
/// exactly the paths of the files of `m`.
pub open spec fn lists_files(m: Map<Path, FsEntry>, l: Seq<String>, ps: Seq<Path>) -> bool {
    &&& ps.len() == l.len()
    &&& forall|i: int| 0 <= i < ps.len() ==> (#[trigger] l[i])@ == join_path(ps[i])
    &&& forall|i: int| 0 <= i < ps.len() ==> is_file_entry(#[trigger] entry_in(m, ps[i]))
    &&& forall|i: int, j: int| 0 <= i < j < ps.len() ==> path_lt(#[trigger] ps[i], #[trigger] ps[j])
    &&& forall|p: Path| is_file_entry(#[trigger] entry_in(m, p)) ==> ps.contains(p)
}

/// Appends the '/'-joined paths of the files below `node`, found under the
/// path `prefix`, whose joined form is `current`.
fn collect_flat(node: &FsNode, current: &Vec<char>, list: &mut Vec<String>, Ghost(prefix): Ghost<Path>)
    requires
        wf_node(*node),
        current@ == join_path(prefix),
        forall|i: int| 0 <= i < prefix.len() ==> prefix[i].len() > 0,
        node is Directory || prefix.len() > 0,
    ensures
        final(list)@.len() == old(list)@.len() + files_below(*node).len(),
        forall|i: int| 0 <= i < old(list)@.len() ==> #[trigger] final(list)@[i] == old(list)@[i],
        forall|i: int| 0 <= i < files_below(*node).len() ==>
            #[trigger] final(list)@[old(list)@.len() + i]@ == join_path(prefix + files_below(*node)[i]),
    decreases *node,
{
    proof { lemma_join_nonempty(prefix); }
    match node {
        FsNode::File { .. } => {
            let s = string_from_chars(current);
            list.push(s);
            assert(files_below(*node)[0] =~= Seq::<Seq<char>>::empty());
            assert(prefix + files_below(*node)[0] =~= prefix);
        },
        FsNode::Directory { children } => {
            let ghost start = old(list)@;
            let mut k: usize = 0;
            while k < children.len()
                invariant
                    k <= children@.len(),
                    wf_node(*node),
                    *node == (FsNode::Directory { children: *children }),
                    current@ == join_path(prefix),
                    forall|i: int| 0 <= i < prefix.len() ==> prefix[i].len() > 0,
                    (current@.len() == 0) == (prefix.len() == 0),
                    list@.len() == start.len() + files_from(*node, k as nat).len(),
                    forall|i: int| 0 <= i < start.len() ==> #[trigger] list@[i] == start[i],
                    forall|i: int| 0 <= i < files_from(*node, k as nat).len() ==>
                        #[trigger] list@[start.len() + i]@ == join_path(prefix + files_from(*node, k as nat)[i]),
                decreases children.len() - k,
            {
                let entry = &children[k];
                let name = chars_of(entry.0.as_str());
                let mut next: Vec<char> = Vec::new();
                if current.len() > 0 {
                    let mut t: usize = 0;
                    while t < current.len()
                        invariant
                            t <= current@.len(),
                            next@ == current@.take(t as int),
                        decreases current.len() - t,
                    {
                        next.push(current[t]);
                        t = t + 1;
                        assert(next@ =~= current@.take(t as int));
                    }
                    next.push('/');
                }
                let ghost before_name = next@;
                let mut t: usize = 0;
                while t < name.len()
                    invariant
                        t <= name@.len(),
                        next@ == before_name + name@.take(t as int),
                    decreases name.len() - t,
                {
                    next.push(name[t]);
                    t = t + 1;
                    assert(next@ =~= before_name + name@.take(t as int));
                }
                let ghost sub_prefix = prefix.push(name@);
                proof {
                    assert(name@.take(name@.len() as int) == name@);
                    assert(sub_prefix.drop_last() == prefix);
                    if prefix.len() == 0 {
                        assert(before_name.len() == 0);
                        assert(next@ =~= name@);
                    } else {
                        assert(current@.take(current@.len() as int) == current@);
                        assert(next@ =~= join_path(prefix) + seq!['/'] + name@);
                    }
                    assert(wf_node(entry.1));
                }
                let ghost mid = list@;
                collect_flat(&entry.1, &next, list, Ghost(sub_prefix));
                proof {
                    let a = files_from(*node, k as nat);
                    let sub = files_below(entry.1);
                    let b = sub.map_values(|p: Path| seq![entry.0@] + p);
                    assert(files_from(*node, (k + 1) as nat) == a + b);
                    assert forall|i: int| 0 <= i < (a + b).len() implies
                        #[trigger] list@[start.len() + i]@ == join_path(prefix + (a + b)[i]) by {
                        if i < a.len() {
                            assert(list@[start.len() + i] == mid[start.len() + i]);
                        } else {
                            let x = i - a.len();
                            assert(start.len() + i == mid.len() + x);
                            assert((a + b)[i] == seq![entry.0@] + sub[x]);
                            assert(prefix + (seq![entry.0@] + sub[x]) =~= sub_prefix + sub[x]);
                        }
                    }
                }
                k = k + 1;
            }
            assert(files_from(*node, k as nat) == files_below(*node));
        },
    }
}

// ---------------------------------------------------------------------------
// The file system as a whole, seen as a map from paths to entries.

/// What `p` names in the map `m`.
pub open spec fn entry_in(m: Map<Path, FsEntry>, p: Path) -> Option<FsEntry> {
    if m.dom().contains(p) {
        Some(m[p])
    } else {
        None
    }
}

pub open spec fn to_map(f: spec_fn(Path) -> Option<FsEntry>) -> Map<Path, FsEntry> {
    Map::new(|p: Path| f(p) is Some, |p: Path| f(p)->0)
}

/// Some directory on the way to `c` (not `c` itself) is a file.
pub open spec fn blocked(m: Map<Path, FsEntry>, c: Path) -> bool {
    exists|k: int| 1 <= k < c.len() && #[trigger] is_file_entry(entry_in(m, c.take(k)))
}

/// The file system after `content` is written at `c`: nothing changes when
/// `c` is the root or a file stands on the way to it; otherwise the missing
/// directories on the way are made and `c` becomes the file, replacing
/// whatever stood there together with everything below it.
pub open spec fn written(m: Map<Path, FsEntry>, c: Path, content: Seq<u8>) -> Map<Path, FsEntry> {
    to_map(|q: Path|
        if c.len() == 0 || blocked(m, c) {
            entry_in(m, q)
        } else if prefix_of(c, q) {
            if q.len() == c.len() { Some(FsEntry::File(content)) } else { None }
        } else if prefix_of(q, c) {
            Some(FsEntry::Dir)
        } else {
            entry_in(m, q)
        })
}

/// The file system after making the directory `c`: nothing changes when `c`
/// is the root or a file stands on the way to it; otherwise every path on the
/// way to `c`, and `c` itself, that names nothing becomes a directory.
pub open spec fn made_dir(m: Map<Path, FsEntry>, c: Path) -> Map<Path, FsEntry> {
    to_map(|q: Path|
        if c.len() == 0 || blocked(m, c) || !prefix_of(q, c) || entry_in(m, q) is Some {
            entry_in(m, q)
        } else {
            Some(FsEntry::Dir)
        })
}

/// The file system after removing `c` and everything below it.
pub open spec fn removed(m: Map<Path, FsEntry>, c: Path) -> Map<Path, FsEntry> {
    to_map(|q: Path| if prefix_of(c, q) { None } else { entry_in(m, q) })
}

/// The file system that holds the root directory alone.
pub open spec fn empty_fs() -> Map<Path, FsEntry> {
    Map::empty().insert(Seq::empty(), FsEntry::Dir)
}

/// A file system kept in memory: a tree of directories and files below a
/// root directory.
pub struct RamFs {
    root: FsNode,
}

impl RamFs {
    #[verifier::type_invariant]
    spec fn inv(self) -> bool {
        &&& wf_node(self.root)
        &&& self.root.is_dir()
    }

    /// Each path that names something, with what it names.
    pub closed spec fn view(&self) -> Map<Path, FsEntry> {
        to_map(|p: Path| lookup(self.root, p))
    }

    proof fn lemma_view(&self)
        ensures
            forall|p: Path| #[trigger] entry_in(self@, p) == lookup(self.root, p),
    {
        assert forall|p: Path| #[trigger] entry_in(self@, p) == lookup(self.root, p) by {
            if lookup(self.root, p) is Some {
                assert(self@.dom().contains(p));
            }
        }
    }

    /// An empty file system: the root directory alone.
    pub fn new() -> (fs: Self)
        ensures
            fs@ == empty_fs(),
    {
        let fs = RamFs { root: empty_dir() };
        proof {
            assert forall|p: Path| #[trigger] lookup(fs.root, p) == (if p.len() == 0 { Some(FsEntry::Dir) } else { None::<FsEntry> }) by {
                lemma_lookup_empty_dir(fs.root, p);
            }
            assert forall|p: Path| #[trigger] fs@.dom().contains(p) <==> empty_fs().dom().contains(p) by {
                if p.len() == 0 {
                    assert(p =~= Seq::<Seq<char>>::empty());
                }
            }
            assert(fs@[Seq::empty()] == FsEntry::Dir);
            assert(fs@ =~= empty_fs());
        }
        fs
    }

    /// Writes `content` to the file at `path`, making the directories on the
    /// way; nothing happens when the path has no names or a file stands on
    /// the way.
    pub fn write_file(&mut self, path: &str, content: &[u8])
        ensures
            final(self)@ == written(old(self)@, components(path@), content@),
    {
        proof {
            use_type_invariant(&*self);
            self.lemma_view();
        }
        let comps = path_components(path);
        let ghost c = components(path@);
        if comps.len() == 0 {
            assert(written(old(self)@, c, content@) =~= old(self)@);
            return;
        }
        proof {
            lemma_components_valid(path@);
            assert(views(comps@).skip(0) =~= c);
        }
        let mut root = empty_dir();
        std::mem::swap(&mut root, &mut self.root);
        let ghost old_root = root;
        self.root = write_at(root, &comps, 0, content);
        proof {
            self.lemma_view();
            assert(blocked(old(self)@, c) == blocked_at(old_root, c)) by {
                if blocked(old(self)@, c) {
                    let k = choose|k: int| 1 <= k < c.len() && #[trigger] is_file_entry(entry_in(old(self)@, c.take(k)));
                    assert(is_file_entry(lookup(old_root, c.take(k))));
                }
                if blocked_at(old_root, c) {
                    let k = choose|k: int| 1 <= k < c.len() && #[trigger] is_file_entry(lookup(old_root, c.take(k)));
                    assert(is_file_entry(entry_in(old(self)@, c.take(k))));
                }
            }
            assert(self@ =~= written(old(self)@, c, content@));
        }
    }

    proof fn lemma_blocked_view(&self, c: Path)
        ensures
            blocked(self@, c) == blocked_at(self.root, c),
    {
        self.lemma_view();
        if blocked(self@, c) {
            let k = choose|k: int| 1 <= k < c.len() && #[trigger] is_file_entry(entry_in(self@, c.take(k)));
            assert(is_file_entry(lookup(self.root, c.take(k))));
        }
        if blocked_at(self.root, c) {
            let k = choose|k: int| 1 <= k < c.len() && #[trigger] is_file_entry(lookup(self.root, c.take(k)));
            assert(is_file_entry(entry_in(self@, c.take(k))));
        }
    }

    /// Makes the directory at `path` and the missing directories on the way;
    /// nothing happens when the path has no names or a file stands on the way.
    pub fn mkdir(&mut self, path: &str)
        ensures
            final(self)@ == made_dir(old(self)@, components(path@)),
    {
        proof {
            use_type_invariant(&*self);
            self.lemma_view();
            self.lemma_blocked_view(components(path@));
        }
        let comps = path_components(path);
        let ghost c = components(path@);
        if comps.len() == 0 {
            assert(made_dir(old(self)@, c) =~= old(self)@);
            return;
        }
        proof {
            lemma_components_valid(path@);
            assert(views(comps@).skip(0) =~= c);
        }
        let mut root = empty_dir();
        std::mem::swap(&mut root, &mut self.root);
        self.root = mkdir_at(root, &comps, 0);
        proof {
            self.lemma_view();
            assert(self@ =~= made_dir(old(self)@, c));
        }
    }

    /// The bytes of the file at `path`; `None` when `path` names a directory
    /// or nothing.
    pub fn read_file(&self, path: &str) -> (r: Option<Vec<u8>>)
        ensures
            match entry_in(self@, components(path@)) {
                Some(FsEntry::File(content)) => r matches Some(v) && v@ == content,
                _ => r is None,
            },
    {
        proof {
            use_type_invariant(self);
            self.lemma_view();
        }
        let comps = path_components(path);
        proof {
            assert(views(comps@).skip(0) =~= components(path@));
            lemma_node_at(self.root, components(path@));
        }
        match resolve_at(&self.root, &comps, 0) {
            Some(FsNode::File { content }) => Some(content.clone()),
            _ => None,
        }
    }

    /// Removes what `path` names, and everything below it; tells whether
    /// there was something. The root is never removed.
    pub fn delete_file(&mut self, path: &str) -> (r: bool)
        ensures
            r == (components(path@).len() > 0 && old(self)@.dom().contains(components(path@))),
            final(self)@ == (if r { removed(old(self)@, components(path@)) } else { old(self)@ }),
    {
        proof {
            use_type_invariant(&*self);
            self.lemma_view();
        }
        let comps = path_components(path);
        let ghost c = components(path@);
        if comps.len() == 0 {
            return false;
        }
        proof {
            assert(views(comps@).skip(0) =~= c);
        }
        let mut root = empty_dir();
        std::mem::swap(&mut root, &mut self.root);
        let (new_root, found) = delete_at(root, &comps, 0);
        self.root = new_root;
        proof {
            self.lemma_view();
            if found {
                assert(self@ =~= removed(old(self)@, c));
            } else {
                assert(self@ =~= old(self)@);
            }
        }
        found
    }

    /// The children of the directory at `path`, with whether each is a
    /// directory, in name order; `None` when `path` names a file or nothing.
    pub fn list_dir(&self, path: &str) -> (r: Option<Vec<(String, bool)>>)
        ensures
            match r {
                Some(l) => entry_in(self@, components(path@)) == Some(FsEntry::Dir)
                    && is_listing(self@, components(path@), l@),
                None => entry_in(self@, components(path@)) != Some(FsEntry::Dir),
            },
            components(path@).len() == 0 ==> r is Some,
    {
        proof {
            use_type_invariant(self);
            self.lemma_view();
        }
        let comps = path_components(path);
        let ghost c = components(path@);
        proof {
            assert(views(comps@).skip(0) =~= c);
            lemma_node_at(self.root, c);
        }
        match resolve_at(&self.root, &comps, 0) {
            Some(FsNode::Directory { children }) => {
                let ghost dir = node_at(self.root, c)->0;
                assert(wf_node(dir));
                proof {
                    assert forall|name: Seq<char>| #[trigger] entry_in(self@, c.push(name))
                        == lookup(dir, seq![name]) by {
                        assert(c.push(name) =~= c + seq![name]);
                        lemma_lookup_concat(self.root, c, seq![name]);
                    }
                }
                let mut l: Vec<(String, bool)> = Vec::new();
                let mut k: usize = 0;
                while k < children.len()
                    invariant
                        k <= children@.len(),
                        dir == (FsNode::Directory { children: *children }),
                        wf_node(dir),
                        l@.len() == k,
                        forall|i: int| 0 <= i < k ==> (#[trigger] l@[i]).0 == children@[i].0
                            && l@[i].1 == children@[i].1.is_dir(),
                    decreases children.len() - k,
                {
                    let is_dir = match &children[k].1 {
                        FsNode::Directory { .. } => true,
                        FsNode::File { .. } => false,
                    };
                    l.push((children[k].0.clone(), is_dir));
                    k = k + 1;
                }
                proof {
                    assert forall|i: int| 0 <= i < l@.len() implies
                        (#[trigger] entry_in(self@, c.push(l@[i].0@))) is Some
                        && (l@[i].1 <==> entry_in(self@, c.push(l@[i].0@)) == Some(FsEntry::Dir)) by {
                        lemma_child_index(children@, i);
                        let n = l@[i].0@;
                        assert(n == children@[i].0@);
                        assert(seq![n][0] == n);
                        assert(seq![n].drop_first() =~= Seq::<Seq<char>>::empty());
                        assert(child_of(children@, n) == Some(children@[i].1));
                        assert(lookup(dir, seq![n]) == lookup(children@[i].1, seq![n].drop_first()));
                    }
                    assert forall|name: Seq<char>| #[trigger] entry_in(self@, c.push(name)) is Some implies
                        exists|i: int| 0 <= i < l@.len() && l@[i].0@ == name by {
                        assert(seq![name][0] == name);
                        assert(has_child(children@, name));
                        let i = child_index(children@, name);
                        assert(l@[i].0@ == name);
                    }
                }
                Some(l)
            },
            _ => None,
        }
    }

    /// The '/'-joined paths of all files, in path order.
    pub fn list_files(&self) -> (r: Vec<String>)
        ensures
            exists|ps: Seq<Path>| #[trigger] lists_files(self@, r@, ps),
    {
        proof {
            use_type_invariant(self);
            self.lemma_view();
        }
        let mut list: Vec<String> = Vec::new();
        let empty: Vec<char> = Vec::new();
        collect_flat(&self.root, &empty, &mut list, Ghost(Seq::empty()));
        proof {
            let ps = files_below(self.root);
            lemma_files_from_sound(self.root, child_count(self.root));
            lemma_files_from_sorted(self.root, child_count(self.root));
            assert forall|i: int| 0 <= i < ps.len() implies (#[trigger] list@[i])@ == join_path(ps[i]) by {
                assert(Seq::<Seq<char>>::empty() + ps[i] =~= ps[i]);
                assert(list@[0 + i] == list@[i]);
            }
            assert forall|p: Path| is_file_entry(#[trigger] entry_in(self@, p)) implies ps.contains(p) by {
                if p.len() == 0 {
                    assert(lookup(self.root, p) == Some(FsEntry::Dir));
                } else {
                    let ch = self.root->children@;
                    assert(has_child(ch, p[0]));
                    lemma_files_from_complete(self.root, child_count(self.root), p);
                }
            }
            assert(lists_files(self@, list@, ps));
        }
        list
    }
}


// ---------------------------------------------------------------------------
// Laws of the file system.

/// Every path that names something has directories on its way, and the root
/// is a directory.
pub open spec fn is_tree(m: Map<Path, FsEntry>) -> bool {
    &&& entry_in(m, Seq::empty()) == Some(FsEntry::Dir)
    &&& forall|p: Path, k: int|
        #![trigger entry_in(m, p), entry_in(m, p.take(k))]
        0 <= k < p.len() && entry_in(m, p) is Some ==> entry_in(m, p.take(k)) == Some(FsEntry::Dir)
}

/// A fresh file system is a tree.
pub proof fn lemma_new_is_tree()
    ensures
        is_tree(empty_fs()),
{
    assert(empty_fs().dom().contains(Seq::<Seq<char>>::empty()));
}

/// Writing a file keeps the file system a tree.
pub proof fn lemma_write_keeps_tree(m: Map<Path, FsEntry>, c: Path, content: Seq<u8>)
    requires
        is_tree(m),
    ensures
        is_tree(written(m, c, content)),
{
    let w = written(m, c, content);
    if c.len() == 0 || blocked(m, c) {
        assert(w =~= m);
    } else {
        assert(prefix_of(Seq::<Seq<char>>::empty(), c));
        assert(w.dom().contains(Seq::<Seq<char>>::empty()));
        assert forall|p: Path, k: int|
            #![trigger entry_in(w, p), entry_in(w, p.take(k))]
            0 <= k < p.len() && entry_in(w, p) is Some implies entry_in(w, p.take(k)) == Some(FsEntry::Dir) by {
            let pk = p.take(k);
            if prefix_of(pk, c) && pk.len() < c.len() {
                assert(!prefix_of(c, pk));
            } else if prefix_of(c, pk) {
                assert(prefix_of(c, p));
                assert(p.len() > c.len());
            } else {
                assert(!prefix_of(pk, c)) by {
                    if prefix_of(pk, c) {
                        assert(pk.len() == c.len());
                        assert(pk =~= c);
                    }
                }
                if prefix_of(c, p) {
                    assert forall|i: int| 0 <= i < c.len() implies c[i] == pk[i] by {}
                    assert(c.len() <= pk.len() || prefix_of(pk, c));
                } else if prefix_of(p, c) {
                    assert(prefix_of(pk, c));
                } else {
                    assert(entry_in(m, p) is Some);
                    assert(entry_in(m, pk) == Some(FsEntry::Dir));
                }
            }
        }
    }
}

/// Making a directory keeps the file system a tree.
pub proof fn lemma_mkdir_keeps_tree(m: Map<Path, FsEntry>, c: Path)
    requires
        is_tree(m),
    ensures
        is_tree(made_dir(m, c)),
{
    let w = made_dir(m, c);
    if c.len() == 0 || blocked(m, c) {
        assert(w =~= m);
    } else {
        assert(m.dom().contains(Seq::<Seq<char>>::empty()));
        assert forall|p: Path, k: int|
            #![trigger entry_in(w, p), entry_in(w, p.take(k))]
            0 <= k < p.len() && entry_in(w, p) is Some implies entry_in(w, p.take(k)) == Some(FsEntry::Dir) by {
            let pk = p.take(k);
            if entry_in(m, p) is Some {
                assert(entry_in(m, pk) == Some(FsEntry::Dir));
            } else {
                assert(prefix_of(p, c));
                assert(prefix_of(pk, c));
                if k >= 1 {
                    assert(pk =~= c.take(k));
                    assert(!is_file_entry(entry_in(m, c.take(k))));
                } else {
                    assert(pk =~= Seq::<Seq<char>>::empty());
                }
            }
        }
    }
}

/// Removing a path other than the root keeps the file system a tree.
pub proof fn lemma_remove_keeps_tree(m: Map<Path, FsEntry>, c: Path)
    requires
        is_tree(m),
        c.len() > 0,
    ensures
        is_tree(removed(m, c)),
{
    let w = removed(m, c);
    assert(m.dom().contains(Seq::<Seq<char>>::empty()));
    assert(!prefix_of(c, Seq::<Seq<char>>::empty()));
    assert forall|p: Path, k: int|
        #![trigger entry_in(w, p), entry_in(w, p.take(k))]
        0 <= k < p.len() && entry_in(w, p) is Some implies entry_in(w, p.take(k)) == Some(FsEntry::Dir) by {
        let pk = p.take(k);
        assert(entry_in(m, p) is Some);
        assert(entry_in(m, pk) == Some(FsEntry::Dir));
        assert(!prefix_of(c, pk)) by {
            if prefix_of(c, pk) {
                assert forall|i: int| 0 <= i < c.len() implies c[i] == p[i] by {
                    assert(pk[i] == p[i]);
                }
                assert(prefix_of(c, p));
            }
        }
        assert(w.dom().contains(pk));
    }
}

/// Reading a file just written gives back what was written, unless the path
/// has no names or a file stands on the way to it.
pub proof fn lemma_read_after_write(m: Map<Path, FsEntry>, c: Path, content: Seq<u8>)
    requires
        c.len() > 0,
        !blocked(m, c),
    ensures
        entry_in(written(m, c, content), c) == Some(FsEntry::File(content)),
{
    assert(prefix_of(c, c));
    assert(written(m, c, content).dom().contains(c));
}

/// A file written into a directory, when no file stands on its way, is
/// listed in that directory, as a file.
pub proof fn lemma_listed_after_write(m: Map<Path, FsEntry>, dir: Path, name: Seq<char>, content: Seq<u8>,
    l: Seq<(String, bool)>)
    requires
        !blocked(m, dir.push(name)),
        is_listing(written(m, dir.push(name), content), dir, l),
    ensures
        exists|i: int| 0 <= i < l.len() && l[i].0@ == name && !l[i].1,
{
    let m2 = written(m, dir.push(name), content);
    lemma_read_after_write(m, dir.push(name), content);
    assert(entry_in(m2, dir.push(name)) is Some);
    let i = choose|i: int| 0 <= i < l.len() && l[i].0@ == name;
    assert(l[i].1 <==> entry_in(m2, dir.push(l[i].0@)) == Some(FsEntry::Dir));
}

/// A write leaves every path alone that is neither on the way to the file
/// nor below it.
pub proof fn lemma_write_keeps_others(m: Map<Path, FsEntry>, c: Path, content: Seq<u8>, q: Path)
    requires
        !prefix_of(c, q),
        !prefix_of(q, c),
    ensures
        entry_in(written(m, c, content), q) == entry_in(m, q),
{
    if entry_in(m, q) is Some {
        assert(written(m, c, content).dom().contains(q));
    }
}

/// What a write puts there, a removal takes away with all below it.
pub proof fn lemma_remove_after_write(m: Map<Path, FsEntry>, c: Path, content: Seq<u8>, q: Path)
    requires
        c.len() > 0,
        !blocked(m, c),
        prefix_of(c, q),
    ensures
        written(m, c, content).dom().contains(c),
        entry_in(removed(written(m, c, content), c), q) is None,
{
    lemma_read_after_write(m, c, content);
    assert(!removed(written(m, c, content), c).dom().contains(q));
}

/// A directory just made is a directory, unless the path has no names, a
/// file stands on the way to it, or a file stands at it.
pub proof fn lemma_dir_after_mkdir(m: Map<Path, FsEntry>, c: Path)
    requires
        c.len() > 0,
        !blocked(m, c),
        !is_file_entry(entry_in(m, c)),
    ensures
        entry_in(made_dir(m, c), c) == Some(FsEntry::Dir),
{
    assert(prefix_of(c, c));
    assert(made_dir(m, c).dom().contains(c));
}

} // verus!
