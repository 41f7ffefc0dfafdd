//! The manifest model: the typed in-memory representation of the API
//! description, and the one query the rest of the generation pass uses —
//! the full list of revisions in canonical order: the primary category's
//! chain first, head to tail, then each extension category's chain in
//! declaration order, head to tail, with no deduplication and no
//! reordering.

use vstd::prelude::*;

verus! {

/// One declared parameter of an exposed function: its raw type string and
/// its declared name, exactly as the description gives them.
#[derive(Debug, PartialEq, Eq)]
pub struct Argument {
    pub raw_type: String,
    pub name: String,
}

/// One exposed function: its (globally unique) name, its raw return-type
/// string, and its parameters in declaration order.
#[derive(Debug, PartialEq, Eq)]
pub struct Function {
    pub name: String,
    pub return_type: String,
    pub arguments: Vec<Argument>,
}

/// One category revision: a category tag, a (major, minor) version, an
/// optional link to another revision of the same category, and the
/// functions the revision exposes, in declaration order.
///
/// The link is owned, so a revision chain is finite by construction: the
/// cyclic chains that a malformed description might suggest cannot be
/// represented at all.
#[derive(Debug, PartialEq, Eq)]
pub struct Category {
    pub name: Option<String>,
    pub tag: String,
    pub major: u32,
    pub minor: u32,
    pub next: Option<Box<Category>>,
    pub functions: Vec<Function>,
}

/// The root of the description: one primary category and the named
/// extension categories in declaration order.
#[derive(Debug, PartialEq, Eq)]
pub struct Manifest {
    pub primary: Category,
    pub extensions: Vec<Category>,
}

/// One entry of the flattened revision list: a chain node stripped of its
/// link.
#[derive(Debug, PartialEq, Eq)]
pub struct Revision {
    pub tag: String,
    pub major: u32,
    pub minor: u32,
    pub functions: Vec<Function>,
}

/// The mathematical value of an [`Argument`].
#[verifier::ext_equal]
pub struct ArgumentModel {
    pub raw_type: Seq<char>,
    pub name: Seq<char>,
}

/// The mathematical value of a [`Function`].
#[verifier::ext_equal]
pub struct FunctionModel {
    pub name: Seq<char>,
    pub return_type: Seq<char>,
    pub arguments: Seq<ArgumentModel>,
}

/// The mathematical value of a [`Revision`].
#[verifier::ext_equal]
pub struct RevisionModel {
    pub tag: Seq<char>,
    pub major: u32,
    pub minor: u32,
    pub functions: Seq<FunctionModel>,
}

impl View for Argument {
    type V = ArgumentModel;

    open spec fn view(&self) -> ArgumentModel {
        ArgumentModel { raw_type: self.raw_type@, name: self.name@ }
    }
}

impl View for Function {
    type V = FunctionModel;

    open spec fn view(&self) -> FunctionModel {
        FunctionModel {
            name: self.name@,
            return_type: self.return_type@,
            arguments: self.arguments@.map_values(|a: Argument| a@),
        }
    }
}

impl View for Revision {
    type V = RevisionModel;

    open spec fn view(&self) -> RevisionModel {
        RevisionModel {
            tag: self.tag@,
            major: self.major,
            minor: self.minor,
            functions: self.functions@.map_values(|f: Function| f@),
        }
    }
}

/// The mathematical value of a [`Category`], link structure included.
#[verifier::ext_equal]
pub struct CategoryModel {
    pub name: Option<Seq<char>>,
    pub tag: Seq<char>,
    pub major: u32,
    pub minor: u32,
    pub next: Option<Box<CategoryModel>>,
    pub functions: Seq<FunctionModel>,
}

/// The mathematical value of a [`Manifest`].
#[verifier::ext_equal]
pub struct ManifestModel {
    pub primary: CategoryModel,
    pub extensions: Seq<CategoryModel>,
}

/// The mathematical value of a category, chain included.
pub open spec fn cat_model(c: Category) -> CategoryModel
    decreases c,
{
    CategoryModel {
        name: match c.name {
            Some(s) => Some(s@),
            None => None,
        },
        tag: c.tag@,
        major: c.major,
        minor: c.minor,
        next: match c.next {
            Some(next) => Some(Box::new(cat_model(*next))),
            None => None,
        },
        functions: c.functions@.map_values(|f: Function| f@),
    }
}

/// The mathematical value of a manifest.
pub open spec fn man_model(m: Manifest) -> ManifestModel {
    ManifestModel {
        primary: cat_model(m.primary),
        extensions: Seq::new(m.extensions@.len(), |i: int| cat_model(m.extensions@[i])),
    }
}

/// The revision a single chain node contributes to the flattened list.
pub open spec fn rev_of(c: Category) -> RevisionModel {
    RevisionModel {
        tag: c.tag@,
        major: c.major,
        minor: c.minor,
        functions: c.functions@.map_values(|f: Function| f@),
    }
}

/// The whole chain of `c`, head to tail.
pub open spec fn cat_revisions(c: Category) -> Seq<RevisionModel>
    decreases c,
{
    seq![rev_of(c)] + match c.next {
        Some(next) => cat_revisions(*next),
        None => Seq::empty(),
    }
}

/// The chains of the categories of `cs`, in order, concatenated.
pub open spec fn cats_revisions(cs: Seq<Category>) -> Seq<RevisionModel>
    decreases cs.len(),
{
    if cs.len() == 0 {
        Seq::empty()
    } else {
        cat_revisions(cs[0]) + cats_revisions(cs.drop_first())
    }
}

/// The canonical flattened revision list of a manifest: the primary chain,
/// then every extension chain in declaration order.
pub open spec fn manifest_revisions(m: Manifest) -> Seq<RevisionModel> {
    cat_revisions(m.primary) + cats_revisions(m.extensions@)
}

/// Law: flattening preserves chain order. A chain node stands first in its
/// own flattened chain and is immediately followed by the full chain of the
/// revision its link names — nothing is reordered, dropped or deduplicated
/// in between.
pub proof fn lemma_chain_order(c: Category)
    requires
        c.next is Some,
    ensures
        cat_revisions(c) == seq![rev_of(c)] + cat_revisions(*c.next.unwrap()),
        cat_revisions(c)[0] == rev_of(c),
        cat_revisions(c).drop_first() == cat_revisions(*c.next.unwrap()),
{
    assert(cat_revisions(c).drop_first() =~= cat_revisions(*c.next.unwrap()));
}

/// Law: a chain node without a link contributes exactly its own revision.
pub proof fn lemma_chain_end(c: Category)
    requires
        c.next is None,
    ensures
        cat_revisions(c) == seq![rev_of(c)],
{
    assert(cat_revisions(c) =~= seq![rev_of(c)]);
}

/// Law: the flattened list of a manifest is the primary chain followed by
/// the extension chains in declaration order, each contiguous.
pub proof fn lemma_manifest_order(m: Manifest)
    ensures
        manifest_revisions(m) == cat_revisions(m.primary) + cats_revisions(m.extensions@),
        m.extensions@.len() > 0 ==> cats_revisions(m.extensions@) == cat_revisions(
            m.extensions@[0],
        ) + cats_revisions(m.extensions@.drop_first()),
{
}

/// Concatenating one more category at the end extends the flattened list
/// at the end.
proof fn lemma_cats_revisions_push(cs: Seq<Category>, c: Category)
    ensures
        cats_revisions(cs.push(c)) == cats_revisions(cs) + cat_revisions(c),
    decreases cs.len(),
{
    let s = cs.push(c);
    if cs.len() == 0 {
        assert(s[0] == c);
        assert(s.drop_first() =~= Seq::<Category>::empty());
        assert(cats_revisions(s.drop_first()) =~= Seq::<RevisionModel>::empty());
        assert(cats_revisions(s) =~= cats_revisions(cs) + cat_revisions(c));
    } else {
        assert(s[0] == cs[0]);
        assert(s.drop_first() =~= cs.drop_first().push(c));
        lemma_cats_revisions_push(cs.drop_first(), c);
        assert(cats_revisions(s) =~= cats_revisions(cs) + cat_revisions(c));
    }
}

fn clone_argument(a: &Argument) -> (r: Argument)
    ensures
        r@ == a@,
{
    Argument { raw_type: a.raw_type.clone(), name: a.name.clone() }
}

fn clone_function(f: &Function) -> (r: Function)
    ensures
        r@ == f@,
{
    let mut arguments: Vec<Argument> = Vec::new();
    let mut i: usize = 0;
    while i < f.arguments.len()
        invariant
            i <= f.arguments.len(),
            arguments@.len() == i,
            forall|j: int| 0 <= j < i ==> arguments@[j]@ == f.arguments@[j]@,
        decreases f.arguments.len() - i,
    {
        arguments.push(clone_argument(&f.arguments[i]));
        i += 1;
    }
    let r = Function {
        name: f.name.clone(),
        return_type: f.return_type.clone(),
        arguments,
    };
    proof {
        assert(r@.arguments =~= f@.arguments);
        assert(r@ =~= f@);
    }
    r
}

fn clone_functions(fs: &Vec<Function>) -> (r: Vec<Function>)
    ensures
        r@.map_values(|f: Function| f@) == fs@.map_values(|f: Function| f@),
{
    let mut r: Vec<Function> = Vec::new();
    let mut i: usize = 0;
    while i < fs.len()
        invariant
            i <= fs.len(),
            r@.len() == i,
            forall|j: int| 0 <= j < i ==> r@[j]@ == fs@[j]@,
        decreases fs.len() - i,
    {
        r.push(clone_function(&fs[i]));
        i += 1;
    }
    proof {
        assert(r@.map_values(|f: Function| f@) =~= fs@.map_values(|f: Function| f@));
    }
    r
}

/// Appends the whole chain of `c`, head to tail, to `out`.
fn push_chain(c: &Category, out: &mut Vec<Revision>)
    ensures
        final(out)@.map_values(|r: Revision| r@) == old(out)@.map_values(|r: Revision| r@)
            + cat_revisions(*c),
    decreases *c,
{
    let rev = Revision {
        tag: c.tag.clone(),
        major: c.major,
        minor: c.minor,
        functions: clone_functions(&c.functions),
    };
    proof {
        assert(rev@ =~= rev_of(*c));
    }
    out.push(rev);
    match &c.next {
        Some(next) => {
            push_chain(next, out);
            proof {
                assert(final(out)@.map_values(|r: Revision| r@) =~= old(out)@.map_values(
                    |r: Revision| r@,
                ) + cat_revisions(*c));
            }
        },
        None => {
            proof {
                assert(final(out)@.map_values(|r: Revision| r@) =~= old(out)@.map_values(
                    |r: Revision| r@,
                ) + cat_revisions(*c));
            }
        },
    }
}

impl Manifest {
    /// The flattened revision list in canonical order: the primary chain
    /// first, head to tail, then each extension chain in declaration
    /// order, head to tail. No deduplication, no reordering.
    pub fn flatten(&self) -> (r: Vec<Revision>)
        ensures
            r@.map_values(|x: Revision| x@) == manifest_revisions(*self),
    {
        let mut out: Vec<Revision> = Vec::new();
        push_chain(&self.primary, &mut out);
        let mut i: usize = 0;
        while i < self.extensions.len()
            invariant
                i <= self.extensions.len(),
                out@.map_values(|x: Revision| x@) == cat_revisions(self.primary)
                    + cats_revisions(self.extensions@.subrange(0, i as int)),
            decreases self.extensions.len() - i,
        {
            push_chain(&self.extensions[i], &mut out);
            proof {
                assert(self.extensions@.subrange(0, i + 1 as int) =~= self.extensions@.subrange(
                    0,
                    i as int,
                ).push(self.extensions@[i as int]));
                lemma_cats_revisions_push(
                    self.extensions@.subrange(0, i as int),
                    self.extensions@[i as int],
                );
            }
            i += 1;
        }
        proof {
            assert(self.extensions@.subrange(0, self.extensions@.len() as int)
                =~= self.extensions@);
        }
        out
    }
}

} // verus!
