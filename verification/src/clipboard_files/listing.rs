//! What a selection of files expands to.

use vstd::prelude::*;
use vstd::string::*;

use crate::text::{
    comes_before, join, joined, lemma_precedes_total, lemma_precedes_transitive, owned, precedes,
    same, texts,
};

verus! {

/// At most this many entries are offered at once.
pub const MAX_CLIPBOARD_FILES: usize = 65_536;

/// How deep folders are walked: a guard against a tree that leads into itself.
pub const MAX_DEPTH: u32 = 32;

/// The largest image that is taken from or put on the clipboard.
pub const MAX_CLIPBOARD_IMAGE_BYTES: usize = 67_108_864;

/// A file or a folder as it is offered: its path from the selection on, with
/// backslashes, and its size.
pub struct ClipFile {
    pub name: String,
    pub size: u64,
    pub is_dir: bool,
}

/// A file or a folder as it was found on disk. A link or a device is neither,
/// and is skipped rather than guessed at.
pub enum Node {
    File { name: String, size: u64 },
    Folder { name: String, children: Vec<Node> },
    Other,
}

/// An entry that is offered.
pub ghost struct Entry {
    pub name: Seq<char>,
    pub size: u64,
    pub is_dir: bool,
}

impl View for ClipFile {
    type V = Entry;

    open spec fn view(&self) -> Entry {
        Entry { name: self.name@, size: self.size, is_dir: self.is_dir }
    }
}

/// The entries that files stand for.
pub open spec fn entries(files: Seq<ClipFile>) -> Seq<Entry> {
    Seq::new(files.len(), |i: int| files[i]@)
}

/// The path of something inside a folder.
pub open spec fn inside(folder: Seq<char>, name: Seq<char>) -> Seq<char> {
    if folder.len() == 0 {
        name
    } else {
        folder + seq!['\\'] + name
    }
}

/// What a node expands to: a file to itself, a folder to itself and then to
/// what is in it, so that it exists before anything is put there.
pub open spec fn expanded(node: Node, folder: Seq<char>, depth: nat) -> Seq<Entry>
    decreases node,
{
    match node {
        Node::Other => Seq::empty(),
        Node::File { name, size } => if inside(folder, name@).len() == 0 {
            Seq::empty()
        } else {
            seq![Entry { name: inside(folder, name@), size, is_dir: false }]
        },
        Node::Folder { name, children } => {
            let path = inside(folder, name@);
            if path.len() == 0 {
                Seq::empty()
            } else if depth >= MAX_DEPTH {
                seq![Entry { name: path, size: 0, is_dir: true }]
            } else {
                seq![Entry { name: path, size: 0, is_dir: true }] + expanded_all(
                    children@,
                    path,
                    depth + 1,
                )
            }
        },
    }
}

/// What nodes expand to, one after another.
pub open spec fn expanded_all(nodes: Seq<Node>, folder: Seq<char>, depth: nat) -> Seq<Entry>
    decreases nodes,
{
    if nodes.len() == 0 {
        Seq::empty()
    } else {
        expanded(nodes[0], folder, depth) + expanded_all(
            nodes.subrange(1, nodes.len() as int),
            folder,
            depth,
        )
    }
}

/// A list cut to a number of entries.
pub open spec fn cut(list: Seq<Entry>, most: int) -> Seq<Entry> {
    list.take(
        if list.len() < most {
            list.len() as int
        } else {
            most
        },
    )
}

proof fn lemma_cut_more(a: Seq<Entry>, b: Seq<Entry>, most: int)
    requires
        0 <= most,
    ensures
        a.len() >= most ==> cut(a + b, most) == cut(a, most),
        cut(cut(a, most) + b, most) == cut(a + b, most),
{
    if a.len() >= most {
        assert(cut(a + b, most) =~= cut(a, most));
        assert(cut(cut(a, most) + b, most) =~= cut(a + b, most));
    } else {
        assert(cut(a, most) =~= a);
    }
}

fn path_inside(folder: &str, name: &str) -> (r: String)
    ensures
        r@ == inside(folder@, name@),
{
    if folder.is_empty() {
        return owned(name);
    }
    let mut out: String = owned(folder);
    out.push('\\');
    out.append(name);
    assert(out@ =~= folder@ + seq!['\\'] + name@);
    out
}

/// Adds what a node expands to, as far as there is room.
fn push_entry(out: &mut Vec<ClipFile>, node: &Node, folder: &str, depth: u32)
    requires
        old(out)@.len() <= MAX_CLIPBOARD_FILES,
        depth <= MAX_DEPTH,
    ensures
        entries(final(out)@) == cut(
            entries(old(out)@) + expanded(*node, folder@, depth as nat),
            MAX_CLIPBOARD_FILES as int,
        ),
        final(out)@.len() <= MAX_CLIPBOARD_FILES,
    decreases node, 1int,
{
    let ghost before = entries(out@);
    let ghost whole = expanded(*node, folder@, depth as nat);
    assert(entries(out@).len() == out@.len());
    if out.len() >= MAX_CLIPBOARD_FILES {
        assert(cut(before + whole, MAX_CLIPBOARD_FILES as int) =~= before);
        return;
    }
    match node {
        Node::Other => {
            assert(cut(before + whole, MAX_CLIPBOARD_FILES as int) =~= before);
        },
        Node::File { name, size } => {
            let path: String = path_inside(folder, name.as_str());
            if path.as_str().is_empty() {
                assert(cut(before + whole, MAX_CLIPBOARD_FILES as int) =~= before);
                return;
            }
            out.push(ClipFile { name: path, size: *size, is_dir: false });
            assert(entries(out@) =~= before + whole);
            assert(cut(before + whole, MAX_CLIPBOARD_FILES as int) =~= before + whole);
        },
        Node::Folder { name, children } => {
            let path: String = path_inside(folder, name.as_str());
            if path.as_str().is_empty() {
                assert(cut(before + whole, MAX_CLIPBOARD_FILES as int) =~= before);
                return;
            }
            let ghost own = seq![Entry { name: path@, size: 0, is_dir: true }];
            out.push(ClipFile { name: path.clone(), size: 0, is_dir: true });
            assert(entries(out@) =~= before + own);
            if depth >= MAX_DEPTH {
                assert(cut(before + whole, MAX_CLIPBOARD_FILES as int) =~= before + own);
                return;
            }
            assert(children@.subrange(0, children@.len() as int) =~= children@);
            push_all(out, children, 0, path.as_str(), depth + 1);
            assert((before + own) + expanded_all(children@, path@, (depth + 1) as nat) =~= before
                + whole);
        },
    }
}

/// Adds what nodes expand to, from one on, as far as there is room.
fn push_all(out: &mut Vec<ClipFile>, nodes: &Vec<Node>, from: usize, folder: &str, depth: u32)
    requires
        old(out)@.len() <= MAX_CLIPBOARD_FILES,
        depth <= MAX_DEPTH,
        from <= nodes@.len(),
    ensures
        entries(final(out)@) == cut(
            entries(old(out)@) + expanded_all(
                nodes@.subrange(from as int, nodes@.len() as int),
                folder@,
                depth as nat,
            ),
            MAX_CLIPBOARD_FILES as int,
        ),
        final(out)@.len() <= MAX_CLIPBOARD_FILES,
    decreases nodes@, 0int, nodes@.len() - from,
{
    let ghost most = MAX_CLIPBOARD_FILES as int;
    let ghost before = entries(out@);
    let ghost left = nodes@.subrange(from as int, nodes@.len() as int);
    assert(entries(out@).len() == out@.len());
    if from == nodes.len() {
        assert(cut(before + expanded_all(left, folder@, depth as nat), most) =~= before);
        return;
    }
    assert(left[0] == nodes@[from as int]);
    assert(left.subrange(1, left.len() as int) =~= nodes@.subrange(
        from + 1,
        nodes@.len() as int,
    ));
    push_entry(out, &nodes[from], folder, depth);
    let ghost head = expanded(left[0], folder@, depth as nat);
    let ghost tail = expanded_all(
        nodes@.subrange(from + 1, nodes@.len() as int),
        folder@,
        depth as nat,
    );
    push_all(out, nodes, from + 1, folder, depth);
    proof {
        lemma_cut_more(before + head, tail, most);
        assert((before + head) + tail =~= before + (head + tail));
    }
}

/// The flat list that a selection expands to. A folder comes before what is in
/// it, since that is the order in which the receiver makes them, and the list is
/// never too long.
pub fn expand(roots: &Vec<Node>) -> (r: Vec<ClipFile>)
    ensures
        entries(r@) == cut(
            expanded_all(roots@, Seq::empty(), 0),
            MAX_CLIPBOARD_FILES as int,
        ),
{
    let mut out: Vec<ClipFile> = Vec::new();
    proof {
        reveal_strlit("");
        assert(""@ =~= Seq::empty());
        assert(roots@.subrange(0, roots@.len() as int) =~= roots@);
        assert(entries(out@) + expanded_all(roots@, Seq::empty(), 0) =~= expanded_all(
            roots@,
            Seq::empty(),
            0,
        ));
    }
    push_all(&mut out, roots, 0, "", 0);
    out
}

/// The path of something from a base on, with backslashes between its parts, or
/// none where it does not lie in the base or is the base itself.
pub open spec fn relative(path: Seq<Seq<char>>, base: Seq<Seq<char>>) -> Option<Seq<char>> {
    if base.len() <= path.len() && path.take(base.len() as int) == base {
        let name = joined(path.skip(base.len() as int), seq!['\\']);
        if name.len() > 0 {
            Some(name)
        } else {
            None
        }
    } else {
        None
    }
}

/// The path of something from a base on, given by the parts of both.
pub fn relative_name(path: &Vec<String>, base: &Vec<String>) -> (r: Option<String>)
    ensures
        match r {
            Some(name) => relative(texts(path@), texts(base@)) == Some(name@),
            None => relative(texts(path@), texts(base@)) is None,
        },
{
    if base.len() > path.len() {
        return None;
    }
    let mut i: usize = 0;
    while i < base.len()
        invariant
            i <= base.len() <= path.len(),
            forall|j: int| 0 <= j < i ==> texts(path@)[j] == texts(base@)[j],
        decreases base.len() - i,
    {
        if !same(path[i].as_str(), base[i].as_str()) {
            assert(texts(path@).take(base@.len() as int)[i as int] != texts(base@)[i as int]);
            return None;
        }
        i += 1;
    }
    assert(texts(path@).take(base@.len() as int) =~= texts(base@));
    let mut rest: Vec<String> = Vec::new();
    let mut k: usize = base.len();
    while k < path.len()
        invariant
            base.len() <= k <= path.len(),
            rest.len() == k - base.len(),
            forall|j: int| 0 <= j < rest.len() ==> (#[trigger] rest@[j])@ == path@[j + base.len()]@,
        decreases path.len() - k,
    {
        rest.push(path[k].clone());
        k += 1;
    }
    proof {
        reveal_strlit("\\");
        assert("\\"@ =~= seq!['\\']);
        assert(texts(rest@) =~= texts(path@).skip(base@.len() as int));
    }
    let name: String = join(&rest, "\\");
    if name.as_str().is_empty() {
        None
    } else {
        Some(name)
    }
}

// The order in which a folder's contents are listed.

/// A position put behind those of every name that does not come after.
pub open spec fn name_inserted(names: Seq<Seq<char>>, order: Seq<int>, at: int) -> Seq<int>
    decreases order.len(),
{
    if order.len() > 0 && precedes(names[at], names[order.last()]) {
        name_inserted(names, order.drop_last(), at).push(order.last())
    } else {
        order.push(at)
    }
}

/// The positions of the first `n` names in the order of the names.
pub open spec fn name_order(names: Seq<Seq<char>>, n: int) -> Seq<int>
    decreases n,
{
    if n <= 0 {
        Seq::empty()
    } else {
        name_inserted(names, name_order(names, n - 1), n - 1)
    }
}

/// Positions as numbers.
pub open spec fn positions(at: Seq<usize>) -> Seq<int> {
    Seq::new(at.len(), |i: int| at[i] as int)
}

/// The positions of names in the order of the names, so that the same folder is
/// always listed in the same order.
pub fn sorted_names(names: &Vec<String>) -> (r: Vec<usize>)
    ensures
        positions(r@) == name_order(texts(names@), names@.len() as int),
        forall|i: int| 0 <= i < r@.len() ==> (#[trigger] r@[i]) < names@.len(),
{
    let ghost all = texts(names@);
    let mut order: Vec<usize> = Vec::new();
    let mut n: usize = 0;
    assert(positions(order@) =~= name_order(all, 0));
    while n < names.len()
        invariant
            n <= names.len(),
            all == texts(names@),
            order@.len() == n,
            positions(order@) == name_order(all, n as int),
            forall|i: int| 0 <= i < order@.len() ==> (#[trigger] order@[i]) < names@.len(),
        decreases names.len() - n,
    {
        let ghost before = order@;
        let ghost list = positions(order@);
        let mut at: usize = order.len();
        assert(list.take(at as int) =~= list);
        assert(name_inserted(all, list, n as int) =~= name_inserted(all, list, n as int)
            + list.skip(at as int));
        while at > 0 && comes_before(names[n].as_str(), names[order[at - 1]].as_str())
            invariant
                at <= order.len(),
                n < names.len(),
                order@ == before,
                list == positions(before),
                all == texts(names@),
                forall|i: int| 0 <= i < order@.len() ==> (#[trigger] order@[i]) < names@.len(),
                name_inserted(all, list, n as int) == name_inserted(
                    all,
                    list.take(at as int),
                    n as int,
                ) + list.skip(at as int),
            decreases at,
        {
            proof {
                let head = list.take(at as int);
                assert(head.last() == before[at - 1] as int);
                assert(head.drop_last() =~= list.take(at - 1));
                assert(name_inserted(all, head, n as int) + list.skip(at as int) =~= name_inserted(
                    all,
                    list.take(at - 1),
                    n as int,
                ) + list.skip(at - 1));
            }
            at -= 1;
        }
        proof {
            let head = list.take(at as int);
            if at > 0 {
                assert(head.last() == before[at - 1] as int);
            }
            assert(name_inserted(all, head, n as int) == head.push(n as int));
        }
        order.insert(at, n);
        proof {
            assert(positions(order@) =~= list.take(at as int).push(n as int) + list.skip(
                at as int,
            ));
            assert forall|i: int| 0 <= i < order@.len() implies (#[trigger] order@[i])
                < names@.len() by {
                if i < at {
                    assert(order@[i] == before[i]);
                } else if i > at {
                    assert(order@[i] == before[i - 1]);
                }
            }
        }
        n += 1;
    }
    order
}

// What of the clipboard is taken.

/// Whether an image of this size is taken from or put on the clipboard.
pub open spec fn image_fits(len: nat) -> bool {
    0 < len <= MAX_CLIPBOARD_IMAGE_BYTES
}

/// The image on the clipboard, unless it is empty or too large.
pub fn clipboard_image(offered: Option<Vec<u8>>) -> (r: Option<Vec<u8>>)
    ensures
        r == if offered is Some && image_fits((offered->0)@.len()) {
            offered
        } else {
            None
        },
{
    match offered {
        Some(bytes) => if bytes.len() > 0 && bytes.len() <= MAX_CLIPBOARD_IMAGE_BYTES {
            Some(bytes)
        } else {
            None
        },
        None => None,
    }
}

/// Whether an image may be put on the clipboard.
pub fn set_clipboard_image(bytes: &Vec<u8>) -> (r: bool)
    ensures
        r == image_fits(bytes@.len()),
{
    bytes.len() > 0 && bytes.len() <= MAX_CLIPBOARD_IMAGE_BYTES
}

/// The names among these that are not empty.
pub open spec fn named(paths: Seq<Seq<char>>) -> Seq<Seq<char>>
    decreases paths.len(),
{
    if paths.len() == 0 {
        Seq::empty()
    } else if paths.last().len() == 0 {
        named(paths.drop_last())
    } else {
        named(paths.drop_last()).push(paths.last())
    }
}

/// The paths that a selection on the clipboard holds: those of its first
/// entries that have a name, or none where nothing is left.
pub fn clipboard_paths(offered: Option<Vec<String>>) -> (r: Option<Vec<String>>)
    ensures
        ({
            let taken = match offered {
                Some(paths) => named(
                    texts(paths@).take(
                        if paths@.len() < MAX_CLIPBOARD_FILES {
                            paths@.len() as int
                        } else {
                            MAX_CLIPBOARD_FILES as int
                        },
                    ),
                ),
                None => Seq::empty(),
            };
            match r {
                Some(paths) => texts(paths@) == taken && taken.len() > 0,
                None => taken.len() == 0,
            }
        }),
{
    let paths: Vec<String> = match offered {
        Some(paths) => paths,
        None => {
            return None;
        },
    };
    let ghost all = texts(paths@);
    let mut out: Vec<String> = Vec::new();
    let mut i: usize = 0;
    assert(texts(out@) =~= named(all.take(0)));
    while i < paths.len() && i < MAX_CLIPBOARD_FILES
        invariant
            i <= paths.len(),
            i <= MAX_CLIPBOARD_FILES,
            all == texts(paths@),
            texts(out@) == named(all.take(i as int)),
        decreases paths.len() - i,
    {
        let ghost before = texts(out@);
        assert(all.take(i + 1).drop_last() =~= all.take(i as int));
        if !paths[i].as_str().is_empty() {
            out.push(paths[i].clone());
            assert(texts(out@) =~= before.push(paths@[i as int]@));
        }
        i += 1;
    }
    assert(texts(out@).len() == out@.len());
    if out.len() == 0 {
        None
    } else {
        Some(out)
    }
}

/// The number that changes with every change of the clipboard, or zero where
/// the platform has none.
pub fn clipboard_sequence(native: Option<u32>) -> (r: u32)
    ensures
        r == match native {
            Some(number) => number,
            None => 0,
        },
{
    match native {
        Some(number) => number,
        None => 0,
    }
}

// Laws.

/// A folder always comes before everything in it, and a lone file is offered
/// under its bare name.
pub proof fn law_a_folder_precedes_its_contents(node: Node, folder: Seq<char>, depth: nat)
    ensures
        match node {
            Node::Folder { name, children } => inside(folder, name@).len() > 0 ==> {
                let list = expanded(node, folder, depth);
                &&& list.len() > 0
                &&& list[0] == (Entry { name: inside(folder, name@), size: 0, is_dir: true })
                &&& depth < MAX_DEPTH ==> list.skip(1) == expanded_all(
                    children@,
                    inside(folder, name@),
                    depth + 1,
                )
            },
            Node::File { name, size } => name@.len() > 0 ==> expanded(node, Seq::empty(), depth)
                == seq![Entry { name: name@, size, is_dir: false }],
            Node::Other => expanded(node, folder, depth).len() == 0,
        },
{
    if let Node::Folder { name, children } = node {
        let path = inside(folder, name@);
        if path.len() > 0 && depth < MAX_DEPTH {
            let list = expanded(node, folder, depth);
            assert(list.skip(1) =~= expanded_all(children@, path, depth + 1));
        }
    }
}

/// What is selected is expanded one after the other.
pub proof fn law_a_selection_expands_piece_by_piece(
    a: Seq<Node>,
    b: Seq<Node>,
    folder: Seq<char>,
    depth: nat,
)
    ensures
        expanded_all(a + b, folder, depth) == expanded_all(a, folder, depth) + expanded_all(
            b,
            folder,
            depth,
        ),
    decreases a.len(),
{
    if a.len() == 0 {
        assert(a + b =~= b);
        assert(expanded_all(a, folder, depth) + expanded_all(b, folder, depth) =~= expanded_all(
            b,
            folder,
            depth,
        ));
    } else {
        let rest = a.subrange(1, a.len() as int);
        law_a_selection_expands_piece_by_piece(rest, b, folder, depth);
        assert((a + b).subrange(1, (a + b).len() as int) =~= rest + b);
        assert((a + b)[0] == a[0]);
        assert(expanded(a[0], folder, depth) + (expanded_all(rest, folder, depth) + expanded_all(
            b,
            folder,
            depth,
        )) =~= expanded(a[0], folder, depth) + expanded_all(rest, folder, depth) + expanded_all(
            b,
            folder,
            depth,
        ));
    }
}

/// What is selected alone expands to what it expands to.
pub proof fn law_one_node_expands_alone(node: Node, folder: Seq<char>, depth: nat)
    ensures
        expanded_all(seq![node], folder, depth) == expanded(node, folder, depth),
{
    assert(seq![node].subrange(1, 1) =~= Seq::<Node>::empty());
    assert(expanded_all(seq![node].subrange(1, 1), folder, depth) =~= Seq::empty());
    assert(expanded_all(seq![node], folder, depth) =~= expanded(node, folder, depth));
}

/// A file that has a name is offered once, with its size, under the folder that it is in,
/// behind a backslash; a folder that lies 32 deep is offered without what is in it.
pub proof fn law_a_node_is_offered_under_its_folder(
    folder: Seq<char>,
    name: String,
    size: u64,
    children: Vec<Node>,
    depth: nat,
)
    requires
        folder.len() > 0,
    ensures
        expanded(Node::File { name, size }, folder, depth) == seq![
            Entry { name: folder.push('\\') + name@, size, is_dir: false },
        ],
        depth >= 32 ==> expanded(Node::Folder { name, children }, folder, depth) == seq![
            Entry { name: folder.push('\\') + name@, size: 0, is_dir: true },
        ],
        depth < 32 ==> expanded(Node::Folder { name, children }, folder, depth) == seq![
            Entry { name: folder.push('\\') + name@, size: 0, is_dir: true },
        ] + expanded_all(children@, folder.push('\\') + name@, depth + 1),
{
    assert(inside(folder, name@) =~= folder.push('\\') + name@);
}

/// A list that is cut keeps its first entries: all of them where they are no more than
/// may be offered.
pub proof fn law_a_cut_keeps_the_first(list: Seq<Entry>, most: int)
    requires
        0 <= most,
    ensures
        list.len() <= most ==> cut(list, most) == list,
        list.len() > most ==> cut(list, most).len() == most,
        cut(list, most).is_prefix_of(list),
{
    assert(list.take(list.len() as int) =~= list);
}

/// A path below a base is named by its parts behind the base, with backslashes between
/// them; one that is not below the base has no name.
pub proof fn law_a_path_is_named_from_its_base(
    base: Seq<Seq<char>>,
    rest: Seq<Seq<char>>,
    path: Seq<Seq<char>>,
)
    ensures
        joined(rest, seq!['\\']).len() > 0 ==> relative(base + rest, base) == Some(
            joined(rest, seq!['\\']),
        ),
        joined(rest, seq!['\\']).len() == 0 ==> relative(base + rest, base) is None,
        relative(path, base) is Some ==> base.is_prefix_of(path),
{
    assert((base + rest).take(base.len() as int) =~= base);
    assert((base + rest).skip(base.len() as int) =~= rest);
}

/// Paths without a name are left out, and the others stay as they stood.
pub proof fn law_paths_with_a_name_are_kept(paths: Seq<Seq<char>>)
    ensures
        named(paths) == paths.filter(|path: Seq<char>| path.len() > 0),
    decreases paths.len(),
{
    reveal(Seq::filter);
    if paths.len() > 0 {
        law_paths_with_a_name_are_kept(paths.drop_last());
    }
}

/// Whether one name stands before another in a list: by the names, and where these are
/// the same by their positions.
pub open spec fn stands_before(names: Seq<Seq<char>>, a: int, b: int) -> bool {
    precedes(names[a], names[b]) || (names[a] == names[b] && a < b)
}

proof fn lemma_stands_transitive(names: Seq<Seq<char>>, a: int, b: int, c: int)
    requires
        stands_before(names, a, b),
        stands_before(names, b, c),
    ensures
        stands_before(names, a, c),
{
    if precedes(names[a], names[b]) && precedes(names[b], names[c]) {
        lemma_precedes_transitive(names[a], names[b], names[c]);
    }
}

proof fn lemma_name_inserted(names: Seq<Seq<char>>, order: Seq<int>, at: int)
    requires
        forall|i: int| 0 <= i < order.len() ==> 0 <= #[trigger] order[i] < at,
        forall|i: int, j: int|
            0 <= i < j < order.len() ==> stands_before(
                names,
                #[trigger] order[i],
                #[trigger] order[j],
            ),
        0 <= at < names.len(),
    ensures
        name_inserted(names, order, at).len() == order.len() + 1,
        forall|x: int| #[trigger]
            name_inserted(names, order, at).contains(x) <==> order.contains(x) || x == at,
        forall|i: int|
            0 <= i <= order.len() ==> 0 <= #[trigger] name_inserted(names, order, at)[i] <= at,
        forall|i: int, j: int|
            0 <= i < j <= order.len() ==> stands_before(
                names,
                #[trigger] name_inserted(names, order, at)[i],
                #[trigger] name_inserted(names, order, at)[j],
            ),
    decreases order.len(),
{
    let now = name_inserted(names, order, at);
    if order.len() > 0 && precedes(names[at], names[order.last()]) {
        let front = order.drop_last();
        assert forall|i: int| 0 <= i < front.len() implies 0 <= #[trigger] front[i] < at by {
            assert(front[i] == order[i]);
        }
        assert forall|i: int, j: int| 0 <= i < j < front.len() implies stands_before(
            names,
            #[trigger] front[i],
            #[trigger] front[j],
        ) by {
            assert(front[i] == order[i] && front[j] == order[j]);
        }
        lemma_name_inserted(names, front, at);
        let before = name_inserted(names, front, at);
        assert(now == before.push(order.last()));
        assert forall|x: int| #[trigger] now.contains(x) <==> order.contains(x) || x == at by {
            if now.contains(x) {
                let k = choose|k: int| 0 <= k < now.len() && now[k] == x;
                if k < before.len() {
                    assert(before[k] == x);
                    assert(before.contains(x));
                    if x != at {
                        let m = choose|m: int| 0 <= m < front.len() && front[m] == x;
                        assert(order[m] == x);
                    }
                } else {
                    assert(order[order.len() - 1] == x);
                }
            }
            if x == at {
                assert(before.contains(x));
                let k = choose|k: int| 0 <= k < before.len() && before[k] == x;
                assert(now[k] == x);
            } else if order.contains(x) {
                let m = choose|m: int| 0 <= m < order.len() && order[m] == x;
                if m < front.len() {
                    assert(front[m] == x);
                    assert(before.contains(x));
                    let k = choose|k: int| 0 <= k < before.len() && before[k] == x;
                    assert(now[k] == x);
                } else {
                    assert(now[before.len() as int] == x);
                }
            }
        }
        assert forall|i: int, j: int| 0 <= i < j <= order.len() implies stands_before(
            names,
            #[trigger] now[i],
            #[trigger] now[j],
        ) by {
            if j < order.len() {
                assert(now[i] == before[i] && now[j] == before[j]);
            } else {
                assert(now[i] == before[i] && now[j] == order.last());
                assert(before.contains(before[i]));
                if before[i] != at {
                    let m = choose|m: int| 0 <= m < front.len() && front[m] == before[i];
                    assert(order[m] == before[i]);
                    assert(stands_before(names, order[m], order[order.len() - 1]));
                }
            }
        }
    } else {
        assert(now == order.push(at));
        assert forall|x: int| #[trigger] now.contains(x) <==> order.contains(x) || x == at by {
            if order.contains(x) {
                let m = choose|m: int| 0 <= m < order.len() && order[m] == x;
                assert(now[m] == x);
            }
            if x == at {
                assert(now[order.len() as int] == x);
            }
        }
        assert forall|i: int, j: int| 0 <= i < j <= order.len() implies stands_before(
            names,
            #[trigger] now[i],
            #[trigger] now[j],
        ) by {
            if j < order.len() {
                assert(now[i] == order[i] && now[j] == order[j]);
            } else {
                let last = order.last();
                assert(last == order[order.len() - 1]);
                lemma_precedes_total(names[at], names[last]);
                assert(stands_before(names, last, at));
                if i < order.len() - 1 {
                    assert(stands_before(names, order[i], order[order.len() - 1]));
                    lemma_stands_transitive(names, order[i], last, at);
                }
            }
        }
    }
}

/// Names are listed each once, in the order of the names, and those that are the same in
/// the order in which they came.
pub proof fn law_names_are_listed_in_order(names: Seq<Seq<char>>, n: int)
    requires
        0 <= n <= names.len(),
    ensures
        name_order(names, n).len() == n,
        forall|x: int| #[trigger] name_order(names, n).contains(x) <==> 0 <= x < n,
        forall|i: int| 0 <= i < n ==> 0 <= #[trigger] name_order(names, n)[i] < n,
        forall|i: int, j: int|
            0 <= i < j < n ==> stands_before(
                names,
                #[trigger] name_order(names, n)[i],
                #[trigger] name_order(names, n)[j],
            ),
    decreases n,
{
    if n > 0 {
        law_names_are_listed_in_order(names, n - 1);
        let before = name_order(names, n - 1);
        lemma_name_inserted(names, before, n - 1);
        assert forall|x: int| #[trigger] name_order(names, n).contains(x) <==> 0 <= x < n by {
            assert(before.contains(x) <==> 0 <= x < n - 1);
        }
    }
}

/// An image of up to 64 mebibytes fits, unless it is empty.
pub proof fn law_images_of_this_size_fit(len: nat)
    ensures
        image_fits(len) <==> 1 <= len <= 64 * 1024 * 1024,
{
}

} // verus!
