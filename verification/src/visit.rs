//! The item-graph visitor: a depth-first walk over a document that renders
//! every indexable item and appends (qualified path, rendered text) pairs to
//! an accumulator.
//!
//! The walk's contract is functional: a successful visit appends exactly
//! the entries of `item_entries` and its companions — one entry per
//! struct, enum, union and function reachable from the root through
//! modules, impl blocks and locally-resolvable imports, in depth-first
//! declared order, under its qualified path, and nothing from any other
//! kind. The central invariant of the whole pipeline is that the two
//! accumulator sequences stay index-aligned: every append pushes a path
//! and its rendered text together, and `aligned` is preserved by every
//! visit, failing ones included.
//!
//! An `UnsupportedConstruct` failure while rendering one item skips that
//! item's entry and lets the rest of the document index; a broken-invariant
//! failure (a missing or wrongly-kinded identifier in a required position)
//! aborts the document's build. A containment walk deeper than the document
//! has items is rejected as a cyclic chain of imports.

use vstd::prelude::*;

use crate::error::DocError;
use crate::model::has_item;
use crate::model::item_of;
use crate::model::CrateCtxt;
use crate::model::Document;
use crate::model::FunctionData;
use crate::model::Item;
use crate::model::ItemData;
use crate::render::enum_ok;
use crate::render::function_ok;
use crate::render::name_of;
use crate::render::render_enum_spec;
use crate::render::render_function_spec;
use crate::render::render_struct_spec;
use crate::render::render_union_spec;
use crate::render::struct_ok;
use crate::render::union_ok;
use crate::render::views_of_strs;
use crate::strutil::first_match_from;
use crate::strutil::path_of;

verus! {

use vstd::std_specs::vec::vec_index;
use vstd::string::StrSliceExecFns;
use vstd::string::StringExecFns;

/// The per-document accumulator: the module traversal stack, and the two
/// parallel output sequences.
#[derive(Debug)]
pub struct Output {
    /// Name segments from the document root to the item being visited.
    pub segment_stack: Vec<String>,
    /// The qualified paths, index-aligned with `docs`.
    pub index: Vec<String>,
    /// The rendered texts, index-aligned with `index`.
    pub docs: Vec<String>,
}

/// The alignment invariant: the two parallel sequences have equal length,
/// so that `index[i]` is always the path whose rendered text is `docs[i]`.
pub open spec fn aligned(o: Output) -> bool {
    o.index@.len() == o.docs@.len()
}

/// `new` extends `old` by whole entries: both prior sequences are preserved
/// as prefixes, and paths and texts were appended in equal number.
pub open spec fn appends(old: Output, new: Output) -> bool {
    &&& new.index@.len() >= old.index@.len()
    &&& new.docs@.len() >= old.docs@.len()
    &&& forall|i: int| 0 <= i < old.index@.len() ==> new.index@[i] == #[trigger] old.index@[i]
    &&& forall|i: int| 0 <= i < old.docs@.len() ==> new.docs@[i] == #[trigger] old.docs@[i]
    &&& new.index@.len() - old.index@.len() == new.docs@.len() - old.docs@.len()
}

/// The two accumulators hold the same stack and entries.
pub open spec fn unchanged_output(a: Output, b: Output) -> bool {
    &&& b.segment_stack@ == a.segment_stack@
    &&& b.index@ == a.index@
    &&& b.docs@ == a.docs@
}

impl Default for Output {
    /// An empty accumulator.
    fn default() -> (r: Output)
        ensures
            r.segment_stack@.len() == 0,
            r.index@.len() == 0,
            r.docs@.len() == 0,
    {
        Output { segment_stack: Vec::new(), index: Vec::new(), docs: Vec::new() }
    }
}

impl Output {
    /// The qualified path for an item named `last` at the current traversal
    /// position: the non-empty stack segments and `last`, joined by `::`.
    pub fn to_path_string_with(&self, last: &str) -> (r: String)
        ensures
            r@ == path_of(views_of_strs(self.segment_stack@), last@),
    {
        let mut out = String::new();
        let n = self.segment_stack.len();
        proof {
            let vs = views_of_strs(self.segment_stack@);
            assert(vs.subrange(0, vs.len() as int) =~= vs);
        }
        let mut j: usize = 0;
        while j < n
            invariant
                j <= n,
                n == self.segment_stack@.len(),
                out@ + path_of(
                    views_of_strs(self.segment_stack@).subrange(
                        j as int,
                        self.segment_stack@.len() as int,
                    ),
                    last@,
                ) == path_of(views_of_strs(self.segment_stack@), last@),
            decreases n - j,
        {
            let seg = vec_index(&self.segment_stack, j);
            if seg.as_str().unicode_len() > 0 {
                out.append(seg.as_str());
                out.append("::");
            }
            proof {
                reveal_strlit("::");
                let vs = views_of_strs(self.segment_stack@);
                assert("::"@ =~= crate::strutil::sep());
                assert(vs[j as int] == self.segment_stack@[j as int]@);
                assert(vs.subrange(j as int, vs.len() as int).drop_first() =~= vs.subrange(
                    j + 1,
                    vs.len() as int,
                ));
                assert(vs.subrange(j as int, vs.len() as int)[0] == vs[j as int]);
                assert(out@ + path_of(vs.subrange(j + 1, vs.len() as int), last@) =~= path_of(
                    vs,
                    last@,
                ));
            }
            j += 1;
        }
        out.append(last);
        proof {
            let vs = views_of_strs(self.segment_stack@);
            assert(vs.subrange(n as int, vs.len() as int) =~= Seq::<Seq<char>>::empty());
        }
        out
    }
}

// ---------------------------------------------------------------------------
// Documentation trimming.
// ---------------------------------------------------------------------------

/// The documentation excerpt: text up to the first heading marker when one
/// occurs after the start and before the fixed cutoff, otherwise the first
/// 300 characters.
pub open spec fn doc_excerpt(docs: Seq<char>) -> Seq<char> {
    let h = first_match_from(docs, seq!['#'], 0);
    if h is Some && 0 < h->0 < 300 {
        docs.subrange(0, h->0)
    } else if docs.len() <= 300 {
        docs
    } else {
        docs.subrange(0, 300)
    }
}

/// The rendered documentation: the excerpt, with a truncation ellipsis
/// whenever content was cut off the end.
pub open spec fn rendered_docs(docs: Seq<char>) -> Seq<char> {
    doc_excerpt(docs) + if docs.len() > 300 {
        "\u{2026}\n"@
    } else {
        Seq::<char>::empty()
    }
}

/// The full rendered text of one item: its declaration in a code block,
/// followed by the trimmed documentation.
pub open spec fn document_item_spec(docs: Option<String>, body: Seq<char>) -> Seq<char> {
    "```rs\n"@ + body + "\n```\n"@ + match docs {
        Some(d) => rendered_docs(d@),
        None => Seq::<char>::empty(),
    }
}

/// A documentation string of more than 300 characters, with no early
/// heading marker, renders as exactly its first 300 characters followed by
/// the truncation marker.
pub proof fn lemma_truncation_long(docs: Seq<char>)
    requires
        docs.len() > 300,
        forall|i: int| 0 < i < 300 ==> docs[i] != '#',
    ensures
        rendered_docs(docs) == docs.subrange(0, 300) + "\u{2026}\n"@,
        doc_excerpt(docs).len() == 300,
{
    let h = first_match_from(docs, seq!['#'], 0);
    crate::strutil::lemma_first_match_from(docs, seq!['#'], 0);
    if h is Some && 0 < h->0 < 300 {
        assert(crate::strutil::is_match_at(docs, seq!['#'], h->0));
        assert(docs[h->0] == '#');
    }
}

/// A documentation string of at most 300 characters, with no early heading
/// marker, renders in full with no truncation marker.
pub proof fn lemma_truncation_short(docs: Seq<char>)
    requires
        docs.len() <= 300,
        forall|i: int| 0 < i < docs.len() ==> docs[i] != '#',
    ensures
        rendered_docs(docs) == docs,
{
    let h = first_match_from(docs, seq!['#'], 0);
    crate::strutil::lemma_first_match_from(docs, seq!['#'], 0);
    if h is Some && 0 < h->0 < 300 {
        assert(crate::strutil::is_match_at(docs, seq!['#'], h->0));
        assert(docs[h->0] == '#');
    }
    assert(rendered_docs(docs) =~= docs);
}

impl CrateCtxt {
    /// Wraps a rendered declaration in a code block and appends the item's
    /// trimmed documentation.
    pub fn document_item(&self, item: &Item, body: &str) -> (r: String)
        ensures
            r@ == document_item_spec(item.docs, body@),
    {
        let mut out = String::from_str("```rs\n");
        out.append(body);
        out.append("\n```\n");
        match &item.docs {
            Some(d) => {
                let dv = crate::strutil::str_chars(d.as_str());
                let hv = crate::strutil::str_chars("#");
                proof {
                    reveal_strlit("#");
                    assert(hv@ =~= seq!['#']);
                }
                let n = d.as_str().unicode_len();
                let hit = crate::strutil::find_from(&dv, &hv, 0);
                let cut_early = match hit {
                    Some(p) => p > 0 && p < 300,
                    None => false,
                };
                if cut_early {
                    let p = match hit {
                        Some(p) => p,
                        None => 0,
                    };
                    proof {
                        crate::strutil::lemma_first_match_from(d@, seq!['#'], 0);
                    }
                    let excerpt = d.as_str().substring_char(0, p);
                    out.append(excerpt);
                } else if n <= 300 {
                    out.append(d.as_str());
                } else {
                    let excerpt = d.as_str().substring_char(0, 300);
                    out.append(excerpt);
                }
                if n > 300 {
                    out.append("\u{2026}\n");
                }
                proof {
                    assert(out@ =~= document_item_spec(item.docs, body@));
                }
            },
            None => {},
        }
        out
    }
}

// ---------------------------------------------------------------------------
// Spec accessors for the walk.
// ---------------------------------------------------------------------------

/// The resolved target of the import at `id`, when the item is an import.
pub open spec fn import_target(doc: Document, id: int) -> Option<usize> {
    match item_of(doc, id).inner {
        ItemData::Import(im) => im.target,
        _ => None,
    }
}

/// The function payload at `id`.
pub open spec fn fn_of(doc: Document, id: int) -> FunctionData {
    match item_of(doc, id).inner {
        ItemData::Function(f) => f,
        _ => vstd::pervasive::arbitrary(),
    }
}

/// `id` is a named function of the document.
pub open spec fn is_named_function(doc: Document, id: int) -> bool {
    &&& has_item(doc, id)
    &&& item_of(doc, id).inner is Function
    &&& item_of(doc, id).name is Some
}

/// The struct payload at `id`.
pub open spec fn struct_of(doc: Document, id: int) -> crate::model::StructData {
    match item_of(doc, id).inner {
        ItemData::Struct(d) => d,
        _ => vstd::pervasive::arbitrary(),
    }
}

/// The enum payload at `id`.
pub open spec fn enum_of(doc: Document, id: int) -> crate::model::EnumData {
    match item_of(doc, id).inner {
        ItemData::Enum(d) => d,
        _ => vstd::pervasive::arbitrary(),
    }
}

/// The union payload at `id`.
pub open spec fn union_of(doc: Document, id: int) -> crate::model::UnionData {
    match item_of(doc, id).inner {
        ItemData::Union(d) => d,
        _ => vstd::pervasive::arbitrary(),
    }
}

// ---------------------------------------------------------------------------
// The walk's functional specification: which (path, text) entries a visit
// emits, mirroring the executable walk item for item.
// ---------------------------------------------------------------------------

/// One emitted index entry: the qualified path and the rendered text.
pub type IndexEntry = (Seq<char>, Seq<char>);

/// The paths of a run of entries.
pub open spec fn entry_paths(es: Seq<IndexEntry>) -> Seq<Seq<char>> {
    es.map_values(|e: IndexEntry| e.0)
}

/// The rendered texts of a run of entries.
pub open spec fn entry_texts(es: Seq<IndexEntry>) -> Seq<Seq<char>> {
    es.map_values(|e: IndexEntry| e.1)
}

/// `new` extends `old` by exactly the entries `es`, paths and texts in
/// step; the traversal stack is not constrained.
pub open spec fn emits(old: Output, new: Output, es: Seq<IndexEntry>) -> bool {
    &&& views_of_strs(new.index@) == views_of_strs(old.index@) + entry_paths(es)
    &&& views_of_strs(new.docs@) == views_of_strs(old.docs@) + entry_texts(es)
}

proof fn lemma_entry_runs_concat(a: Seq<IndexEntry>, b: Seq<IndexEntry>)
    ensures
        entry_paths(a + b) == entry_paths(a) + entry_paths(b),
        entry_texts(a + b) == entry_texts(a) + entry_texts(b),
{
    assert(entry_paths(a + b) =~= entry_paths(a) + entry_paths(b));
    assert(entry_texts(a + b) =~= entry_texts(a) + entry_texts(b));
}

proof fn lemma_emits_trans(o: Output, m: Output, n: Output, e1: Seq<IndexEntry>, e2: Seq<
    IndexEntry,
>)
    requires
        emits(o, m, e1),
        emits(m, n, e2),
    ensures
        emits(o, n, e1 + e2),
{
    lemma_entry_runs_concat(e1, e2);
    assert(views_of_strs(n.index@) =~= views_of_strs(o.index@) + entry_paths(e1 + e2));
    assert(views_of_strs(n.docs@) =~= views_of_strs(o.docs@) + entry_texts(e1 + e2));
}

/// The entry text a function at `id` contributes.
pub open spec fn function_entry_text(doc: Document, id: int) -> Seq<char> {
    document_item_spec(
        item_of(doc, id).docs,
        render_function_spec(fn_of(doc, id), name_of(doc, id)),
    )
}

/// The entries a function contributes: its one entry when it renders,
/// nothing when an unmodeled construct makes it skip.
pub open spec fn function_entries(doc: Document, id: int, stack: Seq<Seq<char>>) -> Seq<
    IndexEntry,
> {
    if function_ok(fn_of(doc, id)) {
        seq![(path_of(stack, name_of(doc, id)), function_entry_text(doc, id))]
    } else {
        Seq::empty()
    }
}

/// The entries a struct's own declaration contributes.
pub open spec fn struct_entries(doc: Document, id: int, stack: Seq<Seq<char>>) -> Seq<IndexEntry> {
    if struct_ok(doc, struct_of(doc, id)) {
        seq![
            (
                path_of(stack, name_of(doc, id)),
                document_item_spec(
                    item_of(doc, id).docs,
                    render_struct_spec(doc, struct_of(doc, id), name_of(doc, id)),
                ),
            ),
        ]
    } else {
        Seq::empty()
    }
}

/// The entries an enum contributes; its variants are folded into the
/// rendered body, never indexed separately.
pub open spec fn enum_entries(doc: Document, id: int, stack: Seq<Seq<char>>) -> Seq<IndexEntry> {
    if enum_ok(doc, enum_of(doc, id)) {
        seq![
            (
                path_of(stack, name_of(doc, id)),
                document_item_spec(
                    item_of(doc, id).docs,
                    render_enum_spec(doc, enum_of(doc, id), name_of(doc, id)),
                ),
            ),
        ]
    } else {
        Seq::empty()
    }
}

/// The entries a union's own declaration contributes.
pub open spec fn union_entries(doc: Document, id: int, stack: Seq<Seq<char>>) -> Seq<IndexEntry> {
    if union_ok(doc, union_of(doc, id)) {
        seq![
            (
                path_of(stack, name_of(doc, id)),
                document_item_spec(
                    item_of(doc, id).docs,
                    render_union_spec(doc, union_of(doc, id), name_of(doc, id)),
                ),
            ),
        ]
    } else {
        Seq::empty()
    }
}

/// The entries one item's visit emits, by kind: modules walk their
/// children under an extended stack; structs, enums, unions and functions
/// contribute their own declaration (structs and unions then walk their
/// impl blocks, a struct's under a stack extended by its own name);
/// imports contribute the referenced local item's own entries, or nothing
/// when the target is absent; impl blocks walk their members; every other
/// kind contributes nothing. A walk deeper than `fuel` contributes nothing
/// here, because the executable walk rejects it instead.
pub open spec fn item_entries(doc: Document, id: int, stack: Seq<Seq<char>>, fuel: nat) -> Seq<
    IndexEntry,
>
    decreases fuel, 4int, 0int,
{
    if fuel == 0 || !has_item(doc, id) {
        Seq::empty()
    } else {
        match item_of(doc, id).inner {
            ItemData::Module(_) => module_entries(doc, id, stack, fuel),
            ItemData::Import(im) => match im.target {
                Some(t) => if has_item(doc, t as int) {
                    item_entries(doc, t as int, stack, (fuel - 1) as nat)
                } else {
                    Seq::empty()
                },
                None => Seq::empty(),
            },
            ItemData::Union(u) => union_entries(doc, id, stack) + impl_list_entries(
                doc,
                u.impls@,
                stack,
                0,
                fuel,
            ),
            ItemData::Struct(s) => struct_entries(doc, id, stack) + impl_list_entries(
                doc,
                s.impls@,
                stack.push(name_of(doc, id)),
                0,
                fuel,
            ),
            ItemData::Enum(_) => enum_entries(doc, id, stack),
            ItemData::Function(_) => function_entries(doc, id, stack),
            ItemData::Impl(_) => impl_entries(doc, id, stack, fuel),
            _ => Seq::empty(),
        }
    }
}

/// The entries a module emits: its children in declared order, under a
/// stack extended by the module's name; the module itself contributes no
/// entry of its own.
pub open spec fn module_entries(doc: Document, id: int, stack: Seq<Seq<char>>, fuel: nat) -> Seq<
    IndexEntry,
>
    decreases fuel, 3int, 0int,
{
    match item_of(doc, id).inner {
        ItemData::Module(m) => children_entries(
            doc,
            m.items@,
            stack.push(name_of(doc, id)),
            0,
            fuel,
        ),
        _ => Seq::empty(),
    }
}

/// The entries of the items `ids[i..]`, visited in order.
pub open spec fn children_entries(
    doc: Document,
    ids: Seq<usize>,
    stack: Seq<Seq<char>>,
    i: int,
    fuel: nat,
) -> Seq<IndexEntry>
    decreases fuel, 2int, ids.len() - i,
{
    if fuel > 0 && 0 <= i < ids.len() {
        item_entries(doc, ids[i] as int, stack, (fuel - 1) as nat) + children_entries(
            doc,
            ids,
            stack,
            i + 1,
            fuel,
        )
    } else {
        Seq::empty()
    }
}

/// The entries of the impl blocks `ids[i..]`, visited in order.
pub open spec fn impl_list_entries(
    doc: Document,
    ids: Seq<usize>,
    stack: Seq<Seq<char>>,
    i: int,
    fuel: nat,
) -> Seq<IndexEntry>
    decreases fuel, 2int, ids.len() - i,
{
    if 0 <= i < ids.len() {
        impl_entries(doc, ids[i] as int, stack, fuel) + impl_list_entries(
            doc,
            ids,
            stack,
            i + 1,
            fuel,
        )
    } else {
        Seq::empty()
    }
}

/// The entries an impl block emits: its members, without altering the
/// stack, so they inherit the enclosing type's path.
pub open spec fn impl_entries(doc: Document, id: int, stack: Seq<Seq<char>>, fuel: nat) -> Seq<
    IndexEntry,
>
    decreases fuel, 1int, 0int,
{
    match item_of(doc, id).inner {
        ItemData::Impl(d) => member_entries(doc, d.items@, stack, 0, fuel),
        _ => Seq::empty(),
    }
}

/// The entries of the impl members `ids[i..]`, visited in order.
pub open spec fn member_entries(
    doc: Document,
    ids: Seq<usize>,
    stack: Seq<Seq<char>>,
    i: int,
    fuel: nat,
) -> Seq<IndexEntry>
    decreases fuel, 0int, ids.len() - i,
{
    if fuel > 0 && 0 <= i < ids.len() {
        item_entries(doc, ids[i] as int, stack, (fuel - 1) as nat) + member_entries(
            doc,
            ids,
            stack,
            i + 1,
            fuel,
        )
    } else {
        Seq::empty()
    }
}

/// The walk depth budget for a document: one more than its item count, so
/// that any depth-exceeding walk must have revisited an item (a cyclic
/// chain of imports).
pub open spec fn doc_fuel(doc: Document) -> nat {
    if doc.items@.len() < u64::MAX {
        (doc.items@.len() + 1) as nat
    } else {
        u64::MAX as nat
    }
}

/// The entries a whole-document build emits from an empty stack.
pub open spec fn document_entries(doc: Document) -> Seq<IndexEntry> {
    module_entries(doc, doc.root as int, Seq::empty(), doc_fuel(doc))
}

/// Composing two whole-entry extensions yields a whole-entry extension.
pub proof fn lemma_appends_trans(a: Output, b: Output, c: Output)
    requires
        appends(a, b),
        appends(b, c),
    ensures
        appends(a, c),
{
}

impl CrateCtxt {
    /// Walks the document from its root module: one aligned (path, text)
    /// entry per indexable item, exactly the entries of `module_entries`
    /// at the root (on an empty accumulator, `document_entries`).
    /// Build-aborting failures leave the accumulator with whole entries
    /// only: alignment is preserved unconditionally.
    pub fn run_visitor(&self, out: &mut Output) -> (r: Result<(), DocError>)
        ensures
            appends(*old(out), *final(out)),
            aligned(*old(out)) ==> aligned(*final(out)),
            r is Ok ==> final(out).segment_stack@ == old(out).segment_stack@,
            r is Ok ==> emits(
                *old(out),
                *final(out),
                module_entries(
                    self.krate,
                    self.krate.root as int,
                    views_of_strs(old(out).segment_stack@),
                    doc_fuel(self.krate),
                ),
            ),
    {
        let n = self.krate.items.len();
        let fuel: u64 = if (n as u64) < u64::MAX {
            n as u64 + 1
        } else {
            u64::MAX
        };
        proof {
            assert(fuel as nat == doc_fuel(self.krate));
        }
        self.visit_module(self.krate.root, out, fuel)
    }

    fn visit_module(&self, id: usize, out: &mut Output, fuel: u64) -> (r: Result<(), DocError>)
        ensures
            appends(*old(out), *final(out)),
            aligned(*old(out)) ==> aligned(*final(out)),
            r is Ok ==> final(out).segment_stack@ == old(out).segment_stack@,
            r is Ok ==> emits(
                *old(out),
                *final(out),
                module_entries(
                    self.krate,
                    id as int,
                    views_of_strs(old(out).segment_stack@),
                    fuel as nat,
                ),
            ),
        decreases fuel, 3int,
    {
        if fuel == 0 {
            return Err(DocError::RecursionLimit);
        }
        let (_, m, name) = self.expect_module(id)?;
        out.segment_stack.push(name.to_owned());
        let ghost pushed = *out;
        let ghost pstackv = views_of_strs(pushed.segment_stack@);
        let ghost krate = self.krate;
        proof {
            assert(pstackv =~= views_of_strs(old(out).segment_stack@).push(
                name_of(krate, id as int),
            ));
        }
        let n = m.items.len();
        let mut j: usize = 0;
        while j < n
            invariant
                j <= n,
                n == m.items@.len(),
                fuel >= 1,
                krate == self.krate,
                m.items@ == match item_of(krate, id as int).inner {
                    ItemData::Module(mm) => mm.items@,
                    _ => Seq::<usize>::empty(),
                },
                pushed.index@ == old(out).index@,
                pushed.docs@ == old(out).docs@,
                pushed.segment_stack@.len() == old(out).segment_stack@.len() + 1,
                pushed.segment_stack@.drop_last() == old(out).segment_stack@,
                pstackv == views_of_strs(pushed.segment_stack@),
                appends(pushed, *out),
                aligned(pushed) ==> aligned(*out),
                out.segment_stack@ == pushed.segment_stack@,
                views_of_strs(out.index@) + entry_paths(
                    children_entries(krate, m.items@, pstackv, j as int, fuel as nat),
                ) == views_of_strs(pushed.index@) + entry_paths(
                    children_entries(krate, m.items@, pstackv, 0, fuel as nat),
                ),
                views_of_strs(out.docs@) + entry_texts(
                    children_entries(krate, m.items@, pstackv, j as int, fuel as nat),
                ) == views_of_strs(pushed.docs@) + entry_texts(
                    children_entries(krate, m.items@, pstackv, 0, fuel as nat),
                ),
            decreases n - j,
        {
            let child = m.items[j];
            let ghost before = *out;
            match self.visit_item(child, out, fuel - 1) {
                Ok(()) => {},
                Err(e) => {
                    proof {
                        lemma_appends_trans(pushed, before, *out);
                        assert(appends(*old(out), pushed));
                        lemma_appends_trans(*old(out), pushed, *out);
                    }
                    return Err(e);
                },
            }
            proof {
                lemma_appends_trans(pushed, before, *out);
                let ce = item_entries(krate, child as int, pstackv, (fuel - 1) as nat);
                let rest = children_entries(krate, m.items@, pstackv, j + 1, fuel as nat);
                lemma_entry_runs_concat(ce, rest);
                assert(views_of_strs(out.index@) + entry_paths(rest) =~= views_of_strs(
                    pushed.index@,
                ) + entry_paths(children_entries(krate, m.items@, pstackv, 0, fuel as nat)));
                assert(views_of_strs(out.docs@) + entry_texts(rest) =~= views_of_strs(
                    pushed.docs@,
                ) + entry_texts(children_entries(krate, m.items@, pstackv, 0, fuel as nat)));
            }
            j += 1;
        }
        out.segment_stack.pop();
        proof {
            assert(appends(*old(out), pushed));
            lemma_appends_trans(*old(out), pushed, *out);
            assert(children_entries(krate, m.items@, pstackv, n as int, fuel as nat)
                =~= Seq::<IndexEntry>::empty());
            assert(views_of_strs(final(out).index@) =~= views_of_strs(old(out).index@)
                + entry_paths(
                module_entries(
                    krate,
                    id as int,
                    views_of_strs(old(out).segment_stack@),
                    fuel as nat,
                ),
            ));
            assert(views_of_strs(final(out).docs@) =~= views_of_strs(old(out).docs@)
                + entry_texts(
                module_entries(
                    krate,
                    id as int,
                    views_of_strs(old(out).segment_stack@),
                    fuel as nat,
                ),
            ));
        }
        Ok(())
    }

    /// Dispatches on the item's kind; kinds outside the walk's entry
    /// producers and containers contribute nothing and leave the
    /// accumulator unchanged.
    fn visit_item(&self, id: usize, out: &mut Output, fuel: u64) -> (r: Result<(), DocError>)
        ensures
            appends(*old(out), *final(out)),
            aligned(*old(out)) ==> aligned(*final(out)),
            r is Ok ==> final(out).segment_stack@ == old(out).segment_stack@,
            r is Ok ==> emits(
                *old(out),
                *final(out),
                item_entries(
                    self.krate,
                    id as int,
                    views_of_strs(old(out).segment_stack@),
                    fuel as nat,
                ),
            ),
        decreases fuel, 4int,
    {
        if fuel == 0 {
            return Err(DocError::RecursionLimit);
        }
        let item = self.item(id)?;
        let ghost stackv = views_of_strs(old(out).segment_stack@);
        let ghost es = item_entries(self.krate, id as int, stackv, fuel as nat);
        match &item.inner {
            ItemData::Module(_) => self.visit_module(id, out, fuel),
            ItemData::ExternCrate => Ok(()),
            ItemData::Import(_) => self.visit_import(id, out, fuel),
            ItemData::Union(_) => self.visit_union(id, out, fuel),
            ItemData::Struct(_) => self.visit_struct(id, out, fuel),
            ItemData::StructField(_) => Ok(()),
            ItemData::Enum(_) => self.visit_enum(id, out),
            ItemData::Variant(_) => Ok(()),
            ItemData::Function(_) => self.visit_function(id, out),
            ItemData::Trait => Ok(()),
            ItemData::TraitAlias => Ok(()),
            ItemData::Impl(_) => self.visit_impl(id, out, fuel),
            ItemData::Typedef => Ok(()),
            ItemData::OpaqueType => Ok(()),
            ItemData::Constant => Ok(()),
            ItemData::Static => Ok(()),
            ItemData::ForeignType => Ok(()),
            ItemData::Macro => Ok(()),
            ItemData::ProcMacro => Ok(()),
            ItemData::Primitive => Ok(()),
            ItemData::AssocConst { .. } => Ok(()),
            ItemData::AssocType => Ok(()),
        }
    }

    /// Indexes the union itself, then walks its impl blocks at the current
    /// stack. A declaration that fails to render for an unmodeled
    /// construct is skipped; the impl blocks still index.
    fn visit_union(&self, id: usize, out: &mut Output, fuel: u64) -> (r: Result<(), DocError>)
        ensures
            appends(*old(out), *final(out)),
            aligned(*old(out)) ==> aligned(*final(out)),
            r is Ok ==> final(out).segment_stack@ == old(out).segment_stack@,
            r is Ok ==> emits(
                *old(out),
                *final(out),
                union_entries(self.krate, id as int, views_of_strs(old(out).segment_stack@))
                    + impl_list_entries(
                    self.krate,
                    union_of(self.krate, id as int).impls@,
                    views_of_strs(old(out).segment_stack@),
                    0,
                    fuel as nat,
                ),
            ),
        decreases fuel, 3int,
    {
        if fuel == 0 {
            return Err(DocError::RecursionLimit);
        }
        let (item, u, name) = self.expect_union(id)?;
        let ghost stackv = views_of_strs(old(out).segment_stack@);
        match self.write_union(u, name) {
            Ok(body) => {
                let path = out.to_path_string_with(name);
                let text = self.document_item(item, body.as_str());
                out.index.push(path);
                out.docs.push(text);
                proof {
                    assert(union_entries(self.krate, id as int, stackv) =~= seq![
                        (path@, text@),
                    ]);
                }
            },
            Err(DocError::UnsupportedConstruct { .. }) => {},
            Err(e) => {
                return Err(e);
            },
        }
        let ghost entered = *out;
        proof {
            assert(emits(*old(out), entered, union_entries(self.krate, id as int, stackv)))
                by {
                assert(views_of_strs(entered.index@) =~= views_of_strs(old(out).index@)
                    + entry_paths(union_entries(self.krate, id as int, stackv)));
                assert(views_of_strs(entered.docs@) =~= views_of_strs(old(out).docs@)
                    + entry_texts(union_entries(self.krate, id as int, stackv)));
            }
        }
        match self.visit_impls(&u.impls, out, fuel) {
            Ok(()) => {},
            Err(e) => {
                proof {
                    lemma_appends_trans(*old(out), entered, *out);
                }
                return Err(e);
            },
        }
        proof {
            lemma_appends_trans(*old(out), entered, *out);
            lemma_emits_trans(
                *old(out),
                entered,
                *out,
                union_entries(self.krate, id as int, stackv),
                impl_list_entries(
                    self.krate,
                    union_of(self.krate, id as int).impls@,
                    stackv,
                    0,
                    fuel as nat,
                ),
            );
        }
        Ok(())
    }

    /// Indexes the struct itself, then walks its impl blocks under a stack
    /// extended by the struct's own name, so members get struct-qualified
    /// paths. A declaration that fails to render for an unmodeled
    /// construct is skipped; the impl blocks still index.
    fn visit_struct(&self, id: usize, out: &mut Output, fuel: u64) -> (r: Result<(), DocError>)
        ensures
            appends(*old(out), *final(out)),
            aligned(*old(out)) ==> aligned(*final(out)),
            r is Ok ==> final(out).segment_stack@ == old(out).segment_stack@,
            r is Ok ==> emits(
                *old(out),
                *final(out),
                struct_entries(self.krate, id as int, views_of_strs(old(out).segment_stack@))
                    + impl_list_entries(
                    self.krate,
                    struct_of(self.krate, id as int).impls@,
                    views_of_strs(old(out).segment_stack@).push(name_of(self.krate, id as int)),
                    0,
                    fuel as nat,
                ),
            ),
        decreases fuel, 3int,
    {
        if fuel == 0 {
            return Err(DocError::RecursionLimit);
        }
        let (item, strukt, name) = self.expect_struct(id)?;
        let ghost stackv = views_of_strs(old(out).segment_stack@);
        match self.write_struct(strukt, name) {
            Ok(body) => {
                let path = out.to_path_string_with(name);
                let text = self.document_item(item, body.as_str());
                out.index.push(path);
                out.docs.push(text);
                proof {
                    assert(struct_entries(self.krate, id as int, stackv) =~= seq![
                        (path@, text@),
                    ]);
                }
            },
            Err(DocError::UnsupportedConstruct { .. }) => {},
            Err(e) => {
                return Err(e);
            },
        }
        let ghost entered = *out;
        proof {
            assert(emits(*old(out), entered, struct_entries(self.krate, id as int, stackv)))
                by {
                assert(views_of_strs(entered.index@) =~= views_of_strs(old(out).index@)
                    + entry_paths(struct_entries(self.krate, id as int, stackv)));
                assert(views_of_strs(entered.docs@) =~= views_of_strs(old(out).docs@)
                    + entry_texts(struct_entries(self.krate, id as int, stackv)));
            }
        }
        out.segment_stack.push(name.to_owned());
        let ghost pushed = *out;
        let ghost pstackv = views_of_strs(pushed.segment_stack@);
        let ghost krate = self.krate;
        proof {
            assert(pstackv =~= stackv.push(name_of(krate, id as int)));
        }
        let n = strukt.impls.len();
        let mut j: usize = 0;
        while j < n
            invariant
                j <= n,
                n == strukt.impls@.len(),
                fuel >= 1,
                krate == self.krate,
                has_item(krate, id as int),
                item_of(krate, id as int).inner is Struct,
                strukt.impls@ == struct_of(krate, id as int).impls@,
                stackv == views_of_strs(old(out).segment_stack@),
                pstackv == stackv.push(name_of(krate, id as int)),
                entered.segment_stack@ == old(out).segment_stack@,
                appends(*old(out), entered),
                aligned(*old(out)) ==> aligned(entered),
                emits(*old(out), entered, struct_entries(krate, id as int, stackv)),
                pushed.index@ == entered.index@,
                pushed.docs@ == entered.docs@,
                pushed.segment_stack@.len() == entered.segment_stack@.len() + 1,
                pushed.segment_stack@.drop_last() == entered.segment_stack@,
                pstackv == views_of_strs(pushed.segment_stack@),
                appends(pushed, *out),
                aligned(pushed) ==> aligned(*out),
                out.segment_stack@ == pushed.segment_stack@,
                views_of_strs(out.index@) + entry_paths(
                    impl_list_entries(krate, strukt.impls@, pstackv, j as int, fuel as nat),
                ) == views_of_strs(pushed.index@) + entry_paths(
                    impl_list_entries(krate, strukt.impls@, pstackv, 0, fuel as nat),
                ),
                views_of_strs(out.docs@) + entry_texts(
                    impl_list_entries(krate, strukt.impls@, pstackv, j as int, fuel as nat),
                ) == views_of_strs(pushed.docs@) + entry_texts(
                    impl_list_entries(krate, strukt.impls@, pstackv, 0, fuel as nat),
                ),
            decreases n - j,
        {
            let imp = strukt.impls[j];
            let ghost before = *out;
            match self.visit_impl(imp, out, fuel) {
                Ok(()) => {},
                Err(e) => {
                    proof {
                        lemma_appends_trans(pushed, before, *out);
                        assert(appends(entered, pushed));
                        lemma_appends_trans(entered, pushed, *out);
                        lemma_appends_trans(*old(out), entered, *out);
                    }
                    return Err(e);
                },
            }
            proof {
                lemma_appends_trans(pushed, before, *out);
                let ce = impl_entries(krate, imp as int, pstackv, fuel as nat);
                let rest = impl_list_entries(krate, strukt.impls@, pstackv, j + 1, fuel as nat);
                lemma_entry_runs_concat(ce, rest);
                assert(views_of_strs(out.index@) + entry_paths(rest) =~= views_of_strs(
                    pushed.index@,
                ) + entry_paths(impl_list_entries(krate, strukt.impls@, pstackv, 0, fuel as nat)));
                assert(views_of_strs(out.docs@) + entry_texts(rest) =~= views_of_strs(
                    pushed.docs@,
                ) + entry_texts(impl_list_entries(krate, strukt.impls@, pstackv, 0, fuel as nat)));
            }
            j += 1;
        }
        out.segment_stack.pop();
        proof {
            assert(appends(entered, pushed));
            lemma_appends_trans(entered, pushed, *out);
            lemma_appends_trans(*old(out), entered, *out);
            assert(impl_list_entries(krate, strukt.impls@, pstackv, n as int, fuel as nat)
                =~= Seq::<IndexEntry>::empty());
            assert(emits(
                pushed,
                *final(out),
                impl_list_entries(krate, strukt.impls@, pstackv, 0, fuel as nat),
            )) by {
                assert(views_of_strs(final(out).index@) =~= views_of_strs(pushed.index@)
                    + entry_paths(
                    impl_list_entries(krate, strukt.impls@, pstackv, 0, fuel as nat),
                ));
                assert(views_of_strs(final(out).docs@) =~= views_of_strs(pushed.docs@)
                    + entry_texts(
                    impl_list_entries(krate, strukt.impls@, pstackv, 0, fuel as nat),
                ));
            }
            assert(emits(
                entered,
                *final(out),
                impl_list_entries(krate, strukt.impls@, pstackv, 0, fuel as nat),
            ));
            lemma_emits_trans(
                *old(out),
                entered,
                *final(out),
                struct_entries(krate, id as int, stackv),
                impl_list_entries(krate, strukt.impls@, pstackv, 0, fuel as nat),
            );
        }
        Ok(())
    }

    /// Indexes one enum; variants are folded into its rendered body rather
    /// than indexed separately. A declaration that fails to render for an
    /// unmodeled construct is skipped.
    fn visit_enum(&self, id: usize, out: &mut Output) -> (r: Result<(), DocError>)
        ensures
            appends(*old(out), *final(out)),
            aligned(*old(out)) ==> aligned(*final(out)),
            r is Ok ==> final(out).segment_stack@ == old(out).segment_stack@,
            r is Ok ==> emits(
                *old(out),
                *final(out),
                enum_entries(self.krate, id as int, views_of_strs(old(out).segment_stack@)),
            ),
    {
        let (item, enu, name) = self.expect_enum(id)?;
        let ghost stackv = views_of_strs(old(out).segment_stack@);
        match self.write_enum(enu, name) {
            Ok(body) => {
                let path = out.to_path_string_with(name);
                let text = self.document_item(item, body.as_str());
                out.index.push(path);
                out.docs.push(text);
                proof {
                    assert(enum_entries(self.krate, id as int, stackv) =~= seq![(path@, text@)]);
                    assert(views_of_strs(out.index@) =~= views_of_strs(old(out).index@)
                        + entry_paths(enum_entries(self.krate, id as int, stackv)));
                    assert(views_of_strs(out.docs@) =~= views_of_strs(old(out).docs@)
                        + entry_texts(enum_entries(self.krate, id as int, stackv)));
                }
            },
            Err(DocError::UnsupportedConstruct { .. }) => {
                proof {
                    assert(views_of_strs(out.index@) =~= views_of_strs(old(out).index@)
                        + entry_paths(enum_entries(self.krate, id as int, stackv)));
                    assert(views_of_strs(out.docs@) =~= views_of_strs(old(out).docs@)
                        + entry_texts(enum_entries(self.krate, id as int, stackv)));
                }
            },
            Err(e) => {
                return Err(e);
            },
        }
        Ok(())
    }

    /// Indexes one function. A declaration that fails to render for an
    /// unmodeled construct is skipped.
    fn visit_function(&self, id: usize, out: &mut Output) -> (r: Result<(), DocError>)
        ensures
            appends(*old(out), *final(out)),
            aligned(*old(out)) ==> aligned(*final(out)),
            r is Ok ==> final(out).segment_stack@ == old(out).segment_stack@,
            r is Ok <==> is_named_function(self.krate, id as int),
            r is Ok ==> emits(
                *old(out),
                *final(out),
                function_entries(self.krate, id as int, views_of_strs(old(out).segment_stack@)),
            ),
    {
        let (item, function, name) = self.expect_function(id)?;
        let ghost stackv = views_of_strs(old(out).segment_stack@);
        match self.write_function(function, name) {
            Ok(body) => {
                let path = out.to_path_string_with(name);
                let text = self.document_item(item, body.as_str());
                out.index.push(path);
                out.docs.push(text);
                proof {
                    assert(function_entries(self.krate, id as int, stackv) =~= seq![
                        (path@, text@),
                    ]);
                    assert(views_of_strs(out.index@) =~= views_of_strs(old(out).index@)
                        + entry_paths(function_entries(self.krate, id as int, stackv)));
                    assert(views_of_strs(out.docs@) =~= views_of_strs(old(out).docs@)
                        + entry_texts(function_entries(self.krate, id as int, stackv)));
                }
            },
            Err(_) => {
                proof {
                    assert(views_of_strs(out.index@) =~= views_of_strs(old(out).index@)
                        + entry_paths(function_entries(self.krate, id as int, stackv)));
                    assert(views_of_strs(out.docs@) =~= views_of_strs(old(out).docs@)
                        + entry_texts(function_entries(self.krate, id as int, stackv)));
                }
            },
        }
        Ok(())
    }

    /// Follows an import to the local item it re-exports, indexing that
    /// item under the importing path (exactly the referenced item's own
    /// entries, never a fabricated one). An import whose target is absent
    /// from the document (external or unresolved) is skipped silently.
    fn visit_import(&self, id: usize, out: &mut Output, fuel: u64) -> (r: Result<(), DocError>)
        ensures
            appends(*old(out), *final(out)),
            aligned(*old(out)) ==> aligned(*final(out)),
            r is Ok ==> final(out).segment_stack@ == old(out).segment_stack@,
            r is Ok && (import_target(self.krate, id as int) is None || !has_item(
                self.krate,
                import_target(self.krate, id as int)->0 as int,
            )) ==> unchanged_output(*old(out), *final(out)),
            fuel >= 1 && has_item(self.krate, id as int) && item_of(self.krate, id as int).inner
                is Import && (import_target(self.krate, id as int) is None || !has_item(
                self.krate,
                import_target(self.krate, id as int)->0 as int,
            )) ==> r is Ok,
            r is Ok && fuel >= 1 && has_item(self.krate, id as int) ==> emits(
                *old(out),
                *final(out),
                item_entries(
                    self.krate,
                    id as int,
                    views_of_strs(old(out).segment_stack@),
                    fuel as nat,
                ),
            ),
        decreases fuel, 3int,
    {
        if fuel == 0 {
            return Err(DocError::RecursionLimit);
        }
        let (_, im) = self.expect_import(id)?;
        match im.target {
            Some(t) => {
                if t < self.krate.items.len() {
                    self.visit_item(t, out, fuel - 1)
                } else {
                    Ok(())
                }
            },
            None => Ok(()),
        }
    }

    /// Walks an impl block's members without altering the traversal stack;
    /// members inherit the enclosing type's path.
    fn visit_impl(&self, id: usize, out: &mut Output, fuel: u64) -> (r: Result<(), DocError>)
        ensures
            appends(*old(out), *final(out)),
            aligned(*old(out)) ==> aligned(*final(out)),
            r is Ok ==> final(out).segment_stack@ == old(out).segment_stack@,
            r is Ok ==> emits(
                *old(out),
                *final(out),
                impl_entries(
                    self.krate,
                    id as int,
                    views_of_strs(old(out).segment_stack@),
                    fuel as nat,
                ),
            ),
        decreases fuel, 1int,
    {
        if fuel == 0 {
            return Err(DocError::RecursionLimit);
        }
        let (_, imp) = self.expect_impl(id)?;
        let ghost o0 = *out;
        let ghost stackv = views_of_strs(old(out).segment_stack@);
        let ghost krate = self.krate;
        let n = imp.items.len();
        let mut j: usize = 0;
        while j < n
            invariant
                j <= n,
                n == imp.items@.len(),
                fuel >= 1,
                krate == self.krate,
                imp.items@ == match item_of(krate, id as int).inner {
                    ItemData::Impl(d) => d.items@,
                    _ => Seq::<usize>::empty(),
                },
                o0 == *old(out),
                stackv == views_of_strs(old(out).segment_stack@),
                appends(o0, *out),
                aligned(o0) ==> aligned(*out),
                out.segment_stack@ == o0.segment_stack@,
                views_of_strs(out.index@) + entry_paths(
                    member_entries(krate, imp.items@, stackv, j as int, fuel as nat),
                ) == views_of_strs(o0.index@) + entry_paths(
                    member_entries(krate, imp.items@, stackv, 0, fuel as nat),
                ),
                views_of_strs(out.docs@) + entry_texts(
                    member_entries(krate, imp.items@, stackv, j as int, fuel as nat),
                ) == views_of_strs(o0.docs@) + entry_texts(
                    member_entries(krate, imp.items@, stackv, 0, fuel as nat),
                ),
            decreases n - j,
        {
            let child = imp.items[j];
            let ghost before = *out;
            match self.visit_item(child, out, fuel - 1) {
                Ok(()) => {},
                Err(e) => {
                    proof {
                        lemma_appends_trans(o0, before, *out);
                    }
                    return Err(e);
                },
            }
            proof {
                lemma_appends_trans(o0, before, *out);
                let ce = item_entries(krate, child as int, stackv, (fuel - 1) as nat);
                let rest = member_entries(krate, imp.items@, stackv, j + 1, fuel as nat);
                lemma_entry_runs_concat(ce, rest);
                assert(views_of_strs(out.index@) + entry_paths(rest) =~= views_of_strs(o0.index@)
                    + entry_paths(member_entries(krate, imp.items@, stackv, 0, fuel as nat)));
                assert(views_of_strs(out.docs@) + entry_texts(rest) =~= views_of_strs(o0.docs@)
                    + entry_texts(member_entries(krate, imp.items@, stackv, 0, fuel as nat)));
            }
            j += 1;
        }
        proof {
            assert(member_entries(krate, imp.items@, stackv, n as int, fuel as nat)
                =~= Seq::<IndexEntry>::empty());
            assert(views_of_strs(final(out).index@) =~= views_of_strs(old(out).index@)
                + entry_paths(impl_entries(krate, id as int, stackv, fuel as nat)));
            assert(views_of_strs(final(out).docs@) =~= views_of_strs(old(out).docs@)
                + entry_texts(impl_entries(krate, id as int, stackv, fuel as nat)));
        }
        Ok(())
    }

    /// Walks a list of impl blocks in order.
    fn visit_impls(&self, ids: &Vec<usize>, out: &mut Output, fuel: u64) -> (r: Result<
        (),
        DocError,
    >)
        ensures
            appends(*old(out), *final(out)),
            aligned(*old(out)) ==> aligned(*final(out)),
            r is Ok ==> final(out).segment_stack@ == old(out).segment_stack@,
            r is Ok ==> emits(
                *old(out),
                *final(out),
                impl_list_entries(
                    self.krate,
                    ids@,
                    views_of_strs(old(out).segment_stack@),
                    0,
                    fuel as nat,
                ),
            ),
        decreases fuel, 2int,
    {
        let ghost o0 = *out;
        let ghost stackv = views_of_strs(old(out).segment_stack@);
        let ghost krate = self.krate;
        let n = ids.len();
        let mut j: usize = 0;
        while j < n
            invariant
                j <= n,
                n == ids@.len(),
                krate == self.krate,
                o0 == *old(out),
                stackv == views_of_strs(old(out).segment_stack@),
                appends(o0, *out),
                aligned(o0) ==> aligned(*out),
                out.segment_stack@ == o0.segment_stack@,
                views_of_strs(out.index@) + entry_paths(
                    impl_list_entries(krate, ids@, stackv, j as int, fuel as nat),
                ) == views_of_strs(o0.index@) + entry_paths(
                    impl_list_entries(krate, ids@, stackv, 0, fuel as nat),
                ),
                views_of_strs(out.docs@) + entry_texts(
                    impl_list_entries(krate, ids@, stackv, j as int, fuel as nat),
                ) == views_of_strs(o0.docs@) + entry_texts(
                    impl_list_entries(krate, ids@, stackv, 0, fuel as nat),
                ),
            decreases n - j,
        {
            let imp = ids[j];
            let ghost before = *out;
            match self.visit_impl(imp, out, fuel) {
                Ok(()) => {},
                Err(e) => {
                    proof {
                        lemma_appends_trans(o0, before, *out);
                    }
                    return Err(e);
                },
            }
            proof {
                lemma_appends_trans(o0, before, *out);
                let ce = impl_entries(krate, imp as int, stackv, fuel as nat);
                let rest = impl_list_entries(krate, ids@, stackv, j + 1, fuel as nat);
                lemma_entry_runs_concat(ce, rest);
                assert(views_of_strs(out.index@) + entry_paths(rest) =~= views_of_strs(o0.index@)
                    + entry_paths(impl_list_entries(krate, ids@, stackv, 0, fuel as nat)));
                assert(views_of_strs(out.docs@) + entry_texts(rest) =~= views_of_strs(o0.docs@)
                    + entry_texts(impl_list_entries(krate, ids@, stackv, 0, fuel as nat)));
            }
            j += 1;
        }
        proof {
            assert(impl_list_entries(krate, ids@, stackv, n as int, fuel as nat)
                =~= Seq::<IndexEntry>::empty());
            assert(views_of_strs(final(out).index@) =~= views_of_strs(old(out).index@)
                + entry_paths(impl_list_entries(krate, ids@, stackv, 0, fuel as nat)));
            assert(views_of_strs(final(out).docs@) =~= views_of_strs(old(out).docs@)
                + entry_texts(impl_list_entries(krate, ids@, stackv, 0, fuel as nat)));
        }
        Ok(())
    }
}

/// A document build context: the crate being indexed and its accumulator.
#[derive(Debug)]
pub struct DocCtxt {
    pub ctxt: CrateCtxt,
    pub out: Output,
}

/// Runs the visitor over one document's build context.
pub fn process_crate(dc: &mut DocCtxt) -> (r: Result<(), DocError>)
    ensures
        appends(old(dc).out, final(dc).out),
        aligned(old(dc).out) ==> aligned(final(dc).out),
        final(dc).ctxt == old(dc).ctxt,
        r is Ok ==> final(dc).out.segment_stack@ == old(dc).out.segment_stack@,
{
    let DocCtxt { ctxt, out } = dc;
    ctxt.run_visitor(out)
}

/// The concatenation of the accumulators' paths, preserving within-document
/// order.
pub open spec fn concat_index(outs: Seq<Output>, i: int) -> Seq<String>
    decreases outs.len() - i,
{
    if 0 <= i < outs.len() {
        outs[i].index@ + concat_index(outs, i + 1)
    } else {
        Seq::empty()
    }
}

/// The concatenation of the accumulators' rendered texts.
pub open spec fn concat_docs(outs: Seq<Output>, i: int) -> Seq<String>
    decreases outs.len() - i,
{
    if 0 <= i < outs.len() {
        outs[i].docs@ + concat_docs(outs, i + 1)
    } else {
        Seq::empty()
    }
}

/// Merges per-document accumulators into one, concatenating both parallel
/// sequences in the same document order; alignment is preserved.
pub fn merge(outputs: Vec<Output>) -> (r: Output)
    ensures
        r.index@ == concat_index(outputs@, 0),
        r.docs@ == concat_docs(outputs@, 0),
        (forall|i: int| 0 <= i < outputs@.len() ==> aligned(#[trigger] outputs@[i])) ==> aligned(r),
{
    let ghost orig = outputs@;
    let mut outputs = outputs;
    let mut acc = Output::default();
    proof {
        assert(acc.index@ + concat_index(orig, 0) =~= concat_index(orig, 0));
        assert(acc.docs@ + concat_docs(orig, 0) =~= concat_docs(orig, 0));
    }
    let ghost k: int = 0;
    while outputs.len() > 0
        invariant
            0 <= k <= orig.len(),
            outputs@ =~= orig.subrange(k, orig.len() as int),
            acc.index@ + concat_index(orig, k) == concat_index(orig, 0),
            acc.docs@ + concat_docs(orig, k) == concat_docs(orig, 0),
            acc.index@.len() - acc.docs@.len() == concat_index(orig, 0).len() - concat_index(
                orig,
                k,
            ).len() - (concat_docs(orig, 0).len() - concat_docs(orig, k).len()),
        decreases outputs@.len(),
    {
        let mut o = outputs.remove(0);
        proof {
            assert(o == orig[k]);
            assert(outputs@ =~= orig.subrange(k + 1, orig.len() as int));
        }
        acc.index.append(&mut o.index);
        acc.docs.append(&mut o.docs);
        proof {
            assert(acc.index@ + concat_index(orig, k + 1) =~= concat_index(orig, 0));
            assert(acc.docs@ + concat_docs(orig, k + 1) =~= concat_docs(orig, 0));
            k = k + 1;
        }
    }
    proof {
        assert(acc.index@ =~= concat_index(orig, 0));
        assert(acc.docs@ =~= concat_docs(orig, 0));
        if forall|i: int| 0 <= i < orig.len() ==> aligned(#[trigger] orig[i]) {
            lemma_concat_aligned(orig, 0);
        }
    }
    acc
}

proof fn lemma_concat_aligned(outs: Seq<Output>, i: int)
    requires
        forall|j: int| 0 <= j < outs.len() ==> aligned(#[trigger] outs[j]),
    ensures
        concat_index(outs, i).len() == concat_docs(outs, i).len(),
    decreases outs.len() - i,
{
    if 0 <= i < outs.len() {
        lemma_concat_aligned(outs, i + 1);
    }
}


} // verus!
