//! The runtime locator: resolves every required (category, major, minor)
//! revision against the host's linked structures and extracts every
//! required function slot, or fails fatally and specifically.
//!
//! The host hands the plugin, at init time, one pointer to the primary
//! category's head structure; each structure carries its tag, its version,
//! a link to the next revision of the same chain, and its function slots,
//! and the primary head additionally fans out to an array of extension
//! heads. [`HostStructure`] holds exactly that shape as plain values — a
//! slot's pointer is a plain word, with zero standing for a null slot —
//! and the search and extraction logic is verified over it.

use vstd::prelude::*;

use crate::errors::{RuntimeError, RuntimeErrorModel};
use crate::synth::{RequiredApi, RequiredApiModel};
use crate::text::str_eq;

verus! {

/// One advertised function slot of a host structure: the function's name
/// and its pointer, with `0` standing for a present-but-null slot.
#[derive(Debug, PartialEq, Eq)]
pub struct HostSlot {
    pub name: String,
    pub ptr: u64,
}

/// One revision structure of the host: tag, version, link to the next
/// revision of the same chain, and the advertised function slots.
///
/// The link is owned, so every chain is finite by construction and
/// traversal terminates.
#[derive(Debug, PartialEq, Eq)]
pub struct HostNode {
    pub tag: String,
    pub major: u32,
    pub minor: u32,
    pub next: Option<Box<HostNode>>,
    pub slots: Vec<HostSlot>,
}

/// Everything reachable from the host-supplied base pointer: the primary
/// chain's head and the extension-head array. The array's length and
/// contents are the host's, independent of the manifest.
#[derive(Debug, PartialEq, Eq)]
pub struct HostStructure {
    pub primary: HostNode,
    pub extensions: Vec<HostNode>,
}

/// Whether a node carries exactly the wanted tag, major and minor — the
/// match is exact on all three fields simultaneously; there is no
/// compatibility fallback.
pub open spec fn node_matches(n: HostNode, tag: Seq<char>, major: u32, minor: u32) -> bool {
    n.tag@ == tag && n.major == major && n.minor == minor
}

/// The first node of the chain headed by `n` that matches, walking the
/// revision links head to tail.
pub open spec fn chain_find(n: HostNode, tag: Seq<char>, major: u32, minor: u32) -> Option<
    HostNode,
>
    decreases n,
{
    if node_matches(n, tag, major, minor) {
        Some(n)
    } else {
        match n.next {
            Some(next) => chain_find(*next, tag, major, minor),
            None => None,
        }
    }
}

/// The first match over the extension heads from index `i` on, walking
/// each head's own chain in turn.
pub open spec fn exts_find(
    ns: Seq<HostNode>,
    i: int,
    tag: Seq<char>,
    major: u32,
    minor: u32,
) -> Option<HostNode>
    decreases ns.len() - i,
{
    if i < 0 || i >= ns.len() {
        None
    } else {
        match chain_find(ns[i], tag, major, minor) {
            Some(n) => Some(n),
            None => exts_find(ns, i + 1, tag, major, minor),
        }
    }
}

/// The node a required triple resolves to: the primary chain is walked
/// first, then the extension heads fan out in array order.
pub open spec fn host_find(h: HostStructure, tag: Seq<char>, major: u32, minor: u32) -> Option<
    HostNode,
> {
    match chain_find(h.primary, tag, major, minor) {
        Some(n) => Some(n),
        None => exts_find(h.extensions@, 0, tag, major, minor),
    }
}

/// Every node of the chain headed by `n`, head to tail.
pub open spec fn chain_nodes(n: HostNode) -> Seq<HostNode>
    decreases n,
{
    seq![n] + match n.next {
        Some(next) => chain_nodes(*next),
        None => Seq::empty(),
    }
}

/// Every node the extension heads from index `i` on reach.
pub open spec fn exts_nodes(ns: Seq<HostNode>, i: int) -> Seq<HostNode>
    decreases ns.len() - i,
{
    if i < 0 || i >= ns.len() {
        Seq::empty()
    } else {
        chain_nodes(ns[i]) + exts_nodes(ns, i + 1)
    }
}

/// Every node resolution can reach, in search order: the primary chain,
/// then each extension chain.
pub open spec fn search_nodes(h: HostStructure) -> Seq<HostNode> {
    chain_nodes(h.primary) + exts_nodes(h.extensions@, 0)
}

proof fn lemma_chain_find_exact(n: HostNode, tag: Seq<char>, major: u32, minor: u32)
    ensures
        match chain_find(n, tag, major, minor) {
            Some(f) => node_matches(f, tag, major, minor),
            None => forall|i: int|
                0 <= i < chain_nodes(n).len() ==> !node_matches(
                    #[trigger] chain_nodes(n)[i],
                    tag,
                    major,
                    minor,
                ),
        },
    decreases n,
{
    if !node_matches(n, tag, major, minor) {
        match n.next {
            Some(next) => {
                lemma_chain_find_exact(*next, tag, major, minor);
                if chain_find(n, tag, major, minor) is None {
                    assert forall|i: int| 0 <= i < chain_nodes(n).len() implies !node_matches(
                        #[trigger] chain_nodes(n)[i],
                        tag,
                        major,
                        minor,
                    ) by {
                        if i > 0 {
                            assert(chain_nodes(n)[i] == chain_nodes(*next)[i - 1]);
                        }
                    }
                }
            },
            None => {
                assert(chain_nodes(n) =~= seq![n]);
            },
        }
    }
}

proof fn lemma_exts_find_exact(ns: Seq<HostNode>, i: int, tag: Seq<char>, major: u32, minor: u32)
    ensures
        match exts_find(ns, i, tag, major, minor) {
            Some(f) => node_matches(f, tag, major, minor),
            None => forall|j: int|
                0 <= j < exts_nodes(ns, i).len() ==> !node_matches(
                    #[trigger] exts_nodes(ns, i)[j],
                    tag,
                    major,
                    minor,
                ),
        },
    decreases ns.len() - i,
{
    if 0 <= i < ns.len() {
        lemma_chain_find_exact(ns[i], tag, major, minor);
        lemma_exts_find_exact(ns, i + 1, tag, major, minor);
        if exts_find(ns, i, tag, major, minor) is None {
            let head = chain_nodes(ns[i]);
            assert forall|j: int| 0 <= j < exts_nodes(ns, i).len() implies !node_matches(
                #[trigger] exts_nodes(ns, i)[j],
                tag,
                major,
                minor,
            ) by {
                if j < head.len() {
                    assert(exts_nodes(ns, i)[j] == head[j]);
                } else {
                    assert(exts_nodes(ns, i)[j] == exts_nodes(ns, i + 1)[j - head.len()]);
                }
            }
        }
    }
}

/// Law: matching is exact and has no fallback. A located node carries
/// exactly the requested tag, major and minor, and resolution comes back
/// empty only where no reachable node at all carries them — a request for
/// one version never accepts another.
pub proof fn lemma_host_find_exact(h: HostStructure, tag: Seq<char>, major: u32, minor: u32)
    ensures
        match host_find(h, tag, major, minor) {
            Some(f) => node_matches(f, tag, major, minor),
            None => forall|i: int|
                0 <= i < search_nodes(h).len() ==> !node_matches(
                    #[trigger] search_nodes(h)[i],
                    tag,
                    major,
                    minor,
                ),
        },
{
    lemma_chain_find_exact(h.primary, tag, major, minor);
    lemma_exts_find_exact(h.extensions@, 0, tag, major, minor);
    if host_find(h, tag, major, minor) is None {
        let head = chain_nodes(h.primary);
        assert forall|i: int| 0 <= i < search_nodes(h).len() implies !node_matches(
            #[trigger] search_nodes(h)[i],
            tag,
            major,
            minor,
        ) by {
            if i < head.len() {
                assert(search_nodes(h)[i] == head[i]);
            } else {
                assert(search_nodes(h)[i] == exts_nodes(h.extensions@, 0)[i - head.len()]);
            }
        }
    }
}

/// The pointer of the first slot named `name`, from index `i` on; nothing
/// where no slot carries the name.
pub open spec fn slot_find(slots: Seq<HostSlot>, i: int, name: Seq<char>) -> Option<u64>
    decreases slots.len() - i,
{
    if i < 0 || i >= slots.len() {
        None
    } else if slots[i].name@ == name {
        Some(slots[i].ptr)
    } else {
        slot_find(slots, i + 1, name)
    }
}

fn chain_find_exec<'a>(n: &'a HostNode, tag: &str, major: u32, minor: u32) -> (r: Option<
    &'a HostNode,
>)
    ensures
        match r {
            Some(f) => chain_find(*n, tag@, major, minor) == Some(*f),
            None => chain_find(*n, tag@, major, minor) is None,
        },
    decreases *n,
{
    if str_eq(n.tag.as_str(), tag) && n.major == major && n.minor == minor {
        Some(n)
    } else {
        match &n.next {
            Some(next) => chain_find_exec(next, tag, major, minor),
            None => None,
        }
    }
}

/// Finds the node a required triple resolves to, matching [`host_find`]:
/// the primary chain first, then each extension chain in array order,
/// exact on all three fields.
pub fn find_api<'a>(h: &'a HostStructure, tag: &str, major: u32, minor: u32) -> (r: Option<
    &'a HostNode,
>)
    ensures
        match r {
            Some(f) => host_find(*h, tag@, major, minor) == Some(*f),
            None => host_find(*h, tag@, major, minor) is None,
        },
{
    match chain_find_exec(&h.primary, tag, major, minor) {
        Some(n) => Some(n),
        None => {
            let mut i: usize = 0;
            while i < h.extensions.len()
                invariant
                    i <= h.extensions.len(),
                    chain_find(h.primary, tag@, major, minor) is None,
                    exts_find(h.extensions@, 0, tag@, major, minor) == exts_find(
                        h.extensions@,
                        i as int,
                        tag@,
                        major,
                        minor,
                    ),
                decreases h.extensions.len() - i,
            {
                match chain_find_exec(&h.extensions[i], tag, major, minor) {
                    Some(n) => {
                        return Some(n);
                    },
                    None => {
                        i += 1;
                    },
                }
            }
            None
        },
    }
}

/// Reads the first slot named `name` of a located node, matching
/// [`slot_find`]; the pointer comes back as advertised, null or not.
pub fn slot_ptr(n: &HostNode, name: &str) -> (r: Option<u64>)
    ensures
        r == slot_find(n.slots@, 0, name@),
{
    let mut i: usize = 0;
    while i < n.slots.len()
        invariant
            i <= n.slots.len(),
            slot_find(n.slots@, 0, name@) == slot_find(n.slots@, i as int, name@),
        decreases n.slots.len() - i,
    {
        if str_eq(n.slots[i].name.as_str(), name) {
            return Some(n.slots[i].ptr);
        }
        i += 1;
    }
    None
}

/// One resolved entry of the surface: a function name and its non-null
/// pointer.
#[derive(Debug, PartialEq, Eq)]
pub struct SurfaceEntry {
    pub name: String,
    pub ptr: u64,
}

/// The mathematical value of a [`SurfaceEntry`].
#[verifier::ext_equal]
pub struct EntryModel {
    pub name: Seq<char>,
    pub ptr: u64,
}

impl View for SurfaceEntry {
    type V = EntryModel;

    open spec fn view(&self) -> EntryModel {
        EntryModel { name: self.name@, ptr: self.ptr }
    }
}

/// The entries one resolved node contributes: for each required name from
/// index `i` on, the slot's pointer; an absent or null slot is a
/// [`RuntimeError::MissingFunction`] naming the table and the function.
pub open spec fn spec_node_entries(
    slots: Seq<HostSlot>,
    names: Seq<Seq<char>>,
    i: int,
    table: Seq<char>,
) -> Result<Seq<EntryModel>, RuntimeErrorModel>
    decreases names.len() - i,
{
    if i < 0 || i >= names.len() {
        Ok(Seq::<EntryModel>::empty())
    } else {
        match slot_find(slots, 0, names[i]) {
            None => Err(RuntimeErrorModel::MissingFunction(table, names[i])),
            Some(p) => if p == 0 {
                Err(RuntimeErrorModel::MissingFunction(table, names[i]))
            } else {
                match spec_node_entries(slots, names, i + 1, table) {
                    Err(e) => Err(e),
                    Ok(rest) => Ok(seq![EntryModel { name: names[i], ptr: p }] + rest),
                }
            },
        }
    }
}

/// The full resolution outcome over the required list from index `i` on:
/// every required revision located and every required slot extracted
/// non-null, or the first failure — an unlocated triple is a
/// [`RuntimeError::ApiNotFound`] naming it.
pub open spec fn spec_resolve(h: HostStructure, reqs: Seq<RequiredApiModel>, i: int) -> Result<
    Seq<EntryModel>,
    RuntimeErrorModel,
>
    decreases reqs.len() - i,
{
    if i < 0 || i >= reqs.len() {
        Ok(Seq::<EntryModel>::empty())
    } else {
        match host_find(h, reqs[i].tag, reqs[i].major, reqs[i].minor) {
            None => Err(RuntimeErrorModel::ApiNotFound(reqs[i].tag, reqs[i].major, reqs[i].minor)),
            Some(node) => match spec_node_entries(node.slots@, reqs[i].functions, 0, reqs[i].table) {
                Err(e) => Err(e),
                Ok(es) => match spec_resolve(h, reqs, i + 1) {
                    Err(e) => Err(e),
                    Ok(rest) => Ok(es + rest),
                },
            },
        }
    }
}

/// Whether a located table advertises every one of the given function
/// names with a non-null pointer.
pub open spec fn node_fully_populated(n: HostNode, names: Seq<Seq<char>>) -> bool {
    forall|k: int|
        0 <= k < names.len() ==> match slot_find(n.slots@, 0, #[trigger] names[k]) {
            Some(p) => p != 0,
            None => false,
        }
}

/// Whether one required revision is satisfied by the host: its triple
/// resolves to a node whose table is fully populated for it.
pub open spec fn req_satisfied(h: HostStructure, r: RequiredApiModel) -> bool {
    match host_find(h, r.tag, r.major, r.minor) {
        Some(n) => node_fully_populated(n, r.functions),
        None => false,
    }
}

proof fn lemma_node_entries_success(
    slots: Seq<HostSlot>,
    names: Seq<Seq<char>>,
    i: int,
    table: Seq<char>,
)
    requires
        0 <= i <= names.len(),
    ensures
        spec_node_entries(slots, names, i, table) is Ok <==> forall|k: int|
            i <= k < names.len() ==> match slot_find(slots, 0, #[trigger] names[k]) {
                Some(p) => p != 0,
                None => false,
            },
    decreases names.len() - i,
{
    if i < names.len() {
        lemma_node_entries_success(slots, names, i + 1, table);
    }
}

/// Law: resolution succeeds exactly where every required revision is
/// located and its table advertises every required slot non-null; any
/// gap at all — an unlocated triple, an absent slot, a null slot — fails
/// the whole resolution, so no caller ever observes a partial surface.
pub proof fn lemma_resolve_success(h: HostStructure, reqs: Seq<RequiredApiModel>, i: int)
    requires
        0 <= i <= reqs.len(),
    ensures
        spec_resolve(h, reqs, i) is Ok <==> forall|j: int|
            i <= j < reqs.len() ==> req_satisfied(h, #[trigger] reqs[j]),
    decreases reqs.len() - i,
{
    if i < reqs.len() {
        lemma_resolve_success(h, reqs, i + 1);
        match host_find(h, reqs[i].tag, reqs[i].major, reqs[i].minor) {
            Some(node) => {
                lemma_node_entries_success(node.slots@, reqs[i].functions, 0, reqs[i].table);
            },
            None => {
                assert(!req_satisfied(h, reqs[i]));
            },
        }
    }
}

/// Every function name the required list from index `i` on demands, in
/// required order.
pub open spec fn required_names(reqs: Seq<RequiredApiModel>, i: int) -> Seq<Seq<char>>
    decreases reqs.len() - i,
{
    if i < 0 || i >= reqs.len() {
        Seq::empty()
    } else {
        reqs[i].functions + required_names(reqs, i + 1)
    }
}

proof fn lemma_node_entries_names(
    slots: Seq<HostSlot>,
    names: Seq<Seq<char>>,
    i: int,
    table: Seq<char>,
    es: Seq<EntryModel>,
)
    requires
        0 <= i <= names.len(),
        spec_node_entries(slots, names, i, table) == Ok::<Seq<EntryModel>, RuntimeErrorModel>(es),
    ensures
        es.map_values(|e: EntryModel| e.name) == names.skip(i),
    decreases names.len() - i,
{
    if i >= names.len() {
        assert(es.map_values(|e: EntryModel| e.name) =~= names.skip(i));
    } else {
        let rest = spec_node_entries(slots, names, i + 1, table)->Ok_0;
        let p = slot_find(slots, 0, names[i])->0;
        assert(es == seq![EntryModel { name: names[i], ptr: p }] + rest);
        lemma_node_entries_names(slots, names, i + 1, table, rest);
        assert(rest.len() == rest.map_values(|e: EntryModel| e.name).len());
        assert(rest.len() == names.skip(i + 1).len());
        assert(es.len() == names.skip(i).len());
        assert forall|j: int| 0 <= j < es.len() implies es.map_values(|e: EntryModel| e.name)[j]
            == names.skip(i)[j] by {
            if j == 0 {
                assert(es[0].name == names[i]);
                assert(names.skip(i)[0] == names[i]);
            } else {
                assert(es[j] == rest[j - 1]);
                assert(rest.map_values(|e: EntryModel| e.name)[j - 1] == names.skip(i + 1)[j - 1]);
                assert(names.skip(i)[j] == names.skip(i + 1)[j - 1]);
            }
        }
        assert(es.map_values(|e: EntryModel| e.name) =~= names.skip(i));
    }
}

/// Law: a successful resolution yields one surface entry per required
/// function, in required order — the entry names are exactly the
/// required names, nothing dropped and nothing added.
pub proof fn lemma_surface_entries(
    h: HostStructure,
    reqs: Seq<RequiredApiModel>,
    i: int,
    es: Seq<EntryModel>,
)
    requires
        0 <= i <= reqs.len(),
        spec_resolve(h, reqs, i) == Ok::<Seq<EntryModel>, RuntimeErrorModel>(es),
    ensures
        es.map_values(|e: EntryModel| e.name) == required_names(reqs, i),
    decreases reqs.len() - i,
{
    if i >= reqs.len() {
        assert(es.map_values(|e: EntryModel| e.name) =~= required_names(reqs, i));
    } else {
        let node = host_find(h, reqs[i].tag, reqs[i].major, reqs[i].minor)->0;
        let own = spec_node_entries(node.slots@, reqs[i].functions, 0, reqs[i].table);
        let rest = spec_resolve(h, reqs, i + 1);
        lemma_node_entries_names(node.slots@, reqs[i].functions, 0, reqs[i].table, own->Ok_0);
        lemma_surface_entries(h, reqs, i + 1, rest->Ok_0);
        assert(reqs[i].functions.skip(0) =~= reqs[i].functions);
        assert(es.map_values(|e: EntryModel| e.name) =~= required_names(reqs, i));
    }
}

/// The completed immutable surface: one entry per required function, in
/// required order, each with its extracted non-null pointer. A value of
/// this type only ever comes out of a fully successful resolution — no
/// partially populated surface escapes.
#[derive(Debug, PartialEq, Eq)]
pub struct ResolvedSurface {
    entries: Vec<SurfaceEntry>,
}

impl View for ResolvedSurface {
    type V = Seq<EntryModel>;

    closed spec fn view(&self) -> Seq<EntryModel> {
        self.entries@.map_values(|e: SurfaceEntry| e@)
    }
}

/// The pointer of the first surface entry named `name`, from index `i`
/// on.
pub open spec fn surface_find(es: Seq<EntryModel>, i: int, name: Seq<char>) -> Option<u64>
    decreases es.len() - i,
{
    if i < 0 || i >= es.len() {
        None
    } else if es[i].name == name {
        Some(es[i].ptr)
    } else {
        surface_find(es, i + 1, name)
    }
}

impl ResolvedSurface {
    /// Well-formedness: every entry's pointer is non-null.
    pub open spec fn wf(self) -> bool {
        forall|i: int| 0 <= i < self@.len() ==> (#[trigger] self@[i]).ptr != 0
    }

    /// How many entries the surface holds.
    pub fn len(&self) -> (r: usize)
        ensures
            r == self@.len(),
    {
        self.entries.len()
    }

    /// The pointer resolved for `name`, matching [`surface_find`]; nothing
    /// where the surface holds no such entry.
    pub fn lookup(&self, name: &str) -> (r: Option<u64>)
        ensures
            r == surface_find(self@, 0, name@),
    {
        let mut i: usize = 0;
        while i < self.entries.len()
            invariant
                i <= self.entries.len(),
                self@ == self.entries@.map_values(|e: SurfaceEntry| e@),
                surface_find(self@, 0, name@) == surface_find(self@, i as int, name@),
            decreases self.entries.len() - i,
        {
            if str_eq(self.entries[i].name.as_str(), name) {
                return Some(self.entries[i].ptr);
            }
            i += 1;
        }
        None
    }

    /// A well-formed surface never hands a null pointer out.
    pub proof fn lemma_lookup_nonnull(self, i: int, name: Seq<char>)
        requires
            self.wf(),
        ensures
            match surface_find(self@, i, name) {
                Some(p) => p != 0,
                None => true,
            },
        decreases self@.len() - i,
    {
        if 0 <= i < self@.len() && self@[i].name != name {
            self.lemma_lookup_nonnull(i + 1, name);
        }
    }
}

fn node_entries(node: &HostNode, names: &Vec<String>, i: usize, table: &str) -> (r: Result<
    Vec<SurfaceEntry>,
    RuntimeError,
>)
    requires
        i <= names.len(),
    ensures
        match r {
            Ok(es) => spec_node_entries(
                node.slots@,
                names@.map_values(|s: String| s@),
                i as int,
                table@,
            ) == Ok::<Seq<EntryModel>, RuntimeErrorModel>(
                es@.map_values(|e: SurfaceEntry| e@),
            ) && (forall|j: int| 0 <= j < es@.len() ==> (#[trigger] es@[j]).ptr != 0),
            Err(e) => spec_node_entries(
                node.slots@,
                names@.map_values(|s: String| s@),
                i as int,
                table@,
            ) == Err::<Seq<EntryModel>, RuntimeErrorModel>(e@),
        },
    decreases names.len() - i,
{
    let ghost model = names@.map_values(|s: String| s@);
    if i >= names.len() {
        let out: Vec<SurfaceEntry> = Vec::new();
        proof {
            assert(out@.map_values(|e: SurfaceEntry| e@) =~= Seq::<EntryModel>::empty());
        }
        Ok(out)
    } else {
        proof {
            assert(model[i as int] == names@[i as int]@);
        }
        let name = &names[i];
        match slot_ptr(node, name.as_str()) {
            None => Err(RuntimeError::MissingFunction(table.to_owned(), name.clone())),
            Some(p) => {
                if p == 0 {
                    Err(RuntimeError::MissingFunction(table.to_owned(), name.clone()))
                } else {
                    match node_entries(node, names, i + 1, table) {
                        Err(e) => Err(e),
                        Ok(rest) => {
                            let ghost rest0 = rest@;
                            let mut out: Vec<SurfaceEntry> = Vec::new();
                            out.push(SurfaceEntry { name: name.clone(), ptr: p });
                            let mut rest = rest;
                            out.append(&mut rest);
                            proof {
                                assert(out@.map_values(|e: SurfaceEntry| e@) =~= seq![
                                    EntryModel { name: model[i as int], ptr: p },
                                ] + rest0.map_values(|e: SurfaceEntry| e@));
                            }
                            Ok(out)
                        },
                    }
                }
            },
        }
    }
}

fn resolve_from(h: &HostStructure, reqs: &Vec<RequiredApi>, i: usize) -> (r: Result<
    Vec<SurfaceEntry>,
    RuntimeError,
>)
    requires
        i <= reqs.len(),
    ensures
        match r {
            Ok(es) => spec_resolve(*h, reqs@.map_values(|x: RequiredApi| x@), i as int)
                == Ok::<Seq<EntryModel>, RuntimeErrorModel>(
                es@.map_values(|e: SurfaceEntry| e@),
            ) && (forall|j: int| 0 <= j < es@.len() ==> (#[trigger] es@[j]).ptr != 0),
            Err(e) => spec_resolve(*h, reqs@.map_values(|x: RequiredApi| x@), i as int)
                == Err::<Seq<EntryModel>, RuntimeErrorModel>(e@),
        },
    decreases reqs.len() - i,
{
    let ghost model = reqs@.map_values(|x: RequiredApi| x@);
    if i >= reqs.len() {
        let out: Vec<SurfaceEntry> = Vec::new();
        proof {
            assert(out@.map_values(|e: SurfaceEntry| e@) =~= Seq::<EntryModel>::empty());
        }
        Ok(out)
    } else {
        proof {
            assert(model[i as int] == reqs@[i as int]@);
        }
        let req = &reqs[i];
        match find_api(h, req.tag.as_str(), req.major, req.minor) {
            None => Err(RuntimeError::ApiNotFound(req.tag.clone(), req.major, req.minor)),
            Some(node) => {
                proof {
                    assert(model[i as int].functions =~= req.functions@.map_values(
                        |s: String| s@,
                    ));
                }
                match node_entries(node, &req.functions, 0, req.table.as_str()) {
                    Err(e) => Err(e),
                    Ok(es) => match resolve_from(h, reqs, i + 1) {
                        Err(e) => Err(e),
                        Ok(rest) => {
                            let ghost es0 = es@;
                            let ghost rest0 = rest@;
                            let mut out = es;
                            let mut rest = rest;
                            out.append(&mut rest);
                            proof {
                                assert(out@.map_values(|e: SurfaceEntry| e@) =~= es0.map_values(
                                    |e: SurfaceEntry| e@,
                                ) + rest0.map_values(|e: SurfaceEntry| e@));
                            }
                            Ok(out)
                        },
                    },
                }
            },
        }
    }
}

/// Resolves the whole required list against the host's structures: every
/// triple located by exact match, every required slot extracted and
/// non-null — or the first failure, with nothing handed out. Exactly
/// [`spec_resolve`] over the required list.
pub fn resolve(h: &HostStructure, reqs: &Vec<RequiredApi>) -> (r: Result<
    ResolvedSurface,
    RuntimeError,
>)
    ensures
        match r {
            Ok(s) => spec_resolve(*h, reqs@.map_values(|x: RequiredApi| x@), 0) == Ok::<
                Seq<EntryModel>,
                RuntimeErrorModel,
            >(s@) && s.wf(),
            Err(e) => spec_resolve(*h, reqs@.map_values(|x: RequiredApi| x@), 0) == Err::<
                Seq<EntryModel>,
                RuntimeErrorModel,
            >(e@),
        },
{
    match resolve_from(h, reqs, 0) {
        Err(e) => Err(e),
        Ok(entries) => Ok(ResolvedSurface { entries }),
    }
}

/// Where the module stands in its lifecycle: no surface yet, a fully
/// resolved surface, or a terminal resolution failure. `Active` and
/// `Failed` are terminal for one resolution attempt; there is no retry —
/// a fresh attempt takes a fresh init call after a terminate.
#[derive(Debug)]
pub enum ModuleState {
    Unresolved,
    Active(ResolvedSurface),
    Failed(RuntimeError),
}

/// The explicit module-lifetime owner of the one surface value: created
/// unresolved, resolved exactly once at plugin init, cleared at plugin
/// terminate. Entry points read the surface through it instead of any
/// ambient mutable state.
#[derive(Debug)]
pub struct SurfaceManager {
    state: ModuleState,
}

impl SurfaceManager {
    /// The lifecycle state the manager is in.
    pub closed spec fn current(self) -> ModuleState {
        self.state
    }

    /// A fresh manager: no resolution has happened.
    pub fn new() -> (r: Self)
        ensures
            r.current() is Unresolved,
    {
        SurfaceManager { state: ModuleState::Unresolved }
    }

    /// Runs the one resolution attempt of the module's lifetime and keeps
    /// its outcome: the full surface on success, the fatal error
    /// otherwise. Returns whether the module is usable.
    pub fn init(&mut self, h: &HostStructure, reqs: &Vec<RequiredApi>) -> (ok: bool)
        requires
            old(self).current() is Unresolved,
        ensures
            match final(self).current() {
                ModuleState::Active(s) => ok && spec_resolve(
                    *h,
                    reqs@.map_values(|x: RequiredApi| x@),
                    0,
                ) == Ok::<Seq<EntryModel>, RuntimeErrorModel>(s@) && s.wf(),
                ModuleState::Failed(e) => !ok && spec_resolve(
                    *h,
                    reqs@.map_values(|x: RequiredApi| x@),
                    0,
                ) == Err::<Seq<EntryModel>, RuntimeErrorModel>(e@),
                ModuleState::Unresolved => false,
            },
    {
        match resolve(h, reqs) {
            Ok(s) => {
                self.state = ModuleState::Active(s);
                true
            },
            Err(e) => {
                self.state = ModuleState::Failed(e);
                false
            },
        }
    }

    /// Clears the module back to unresolved, invalidating any surface it
    /// held.
    pub fn terminate(&mut self)
        ensures
            final(self).current() is Unresolved,
    {
        self.state = ModuleState::Unresolved;
    }

    /// The resolved surface, only while the module is active.
    pub fn surface(&self) -> (r: Option<&ResolvedSurface>)
        ensures
            match self.current() {
                ModuleState::Active(s) => r is Some && *r->0 == s,
                _ => r is None,
            },
    {
        match &self.state {
            ModuleState::Active(s) => Some(s),
            _ => None,
        }
    }

    /// The resolution failure, only after a failed init.
    pub fn failure(&self) -> (r: Option<&RuntimeError>)
        ensures
            match self.current() {
                ModuleState::Failed(e) => r is Some && *r->0 == e,
                _ => r is None,
            },
    {
        match &self.state {
            ModuleState::Failed(e) => Some(e),
            _ => None,
        }
    }
}

} // verus!
