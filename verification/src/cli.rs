//! Command-line options, and the check `build` makes of a plan's style
//! references before writing.

use vstd::prelude::*;
use crate::docx::{osv, key};
use crate::plan::{FormatPlan, BlockView};
use crate::props::nonempty;
use crate::text::{chars_of, str_eq, trim_lower, decimal, push_decimal};

verus! {

// ---------------------------------------------------------------------
// `--key value` options.
// ---------------------------------------------------------------------
pub open spec fn texts(v: Seq<String>) -> Seq<Seq<char>> {
    v.map_values(|s: String| s@)
}

pub open spec fn pairs_view(v: Seq<(String, String)>) -> Seq<(Seq<char>, Seq<char>)> {
    v.map_values(|p: (String, String)| (p.0@, p.1@))
}

/// The value set for `key`; of several, the last.
pub open spec fn option_value(v: Seq<(Seq<char>, Seq<char>)>, key: Seq<char>) -> Option<Seq<char>>
    decreases v.len(),
{
    if v.len() == 0 {
        None
    } else if v.last().0 == key {
        Some(v.last().1)
    } else {
        option_value(v.drop_last(), key)
    }
}

pub open spec fn is_flag(a: Seq<char>) -> bool {
    a.len() >= 2 && a[0] == '-' && a[1] == '-'
}

/// The settings made by `args`, and the key waiting for a value: `--key`
/// sets `key` to the empty string unless it is set already, and the next
/// argument that is not a flag becomes its value.
pub open spec fn options_fold(args: Seq<Seq<char>>) -> (Seq<(Seq<char>, Seq<char>)>, Option<Seq<char>>)
    decreases args.len(),
{
    if args.len() == 0 {
        (Seq::empty(), None)
    } else {
        let (v, pending) = options_fold(args.drop_last());
        let a = args.last();
        if is_flag(a) {
            let k = a.skip(2);
            (
                if option_value(v, k) is Some {
                    v
                } else {
                    v.push((k, Seq::empty()))
                },
                Some(k),
            )
        } else {
            match pending {
                Some(k) => (v.push((k, a)), None),
                None => (v, None),
            }
        }
    }
}

/// Parsed options: the settings in the order they were made.
pub struct Options {
    entries: Vec<(String, String)>,
}

impl View for Options {
    type V = Seq<(Seq<char>, Seq<char>)>;

    closed spec fn view(&self) -> Seq<(Seq<char>, Seq<char>)> {
        pairs_view(self.entries@)
    }
}

impl Options {
    /// The value of option `key`, if it was given.
    pub fn get(&self, key: &str) -> (r: Option<&str>)
        ensures
            osv(r) == option_value(self@, key@),
    {
        let ghost v = self@;
        let mut i: usize = self.entries.len();
        assert(v.take(v.len() as int) == v);
        while i > 0
            invariant
                i <= self.entries@.len(),
                v == pairs_view(self.entries@),
                option_value(v, key@) == option_value(v.take(i as int), key@),
            decreases i,
        {
            assert(v.take(i as int).drop_last() == v.take(i - 1));
            if str_eq(self.entries[i - 1].0.as_str(), key) {
                return Some(self.entries[i - 1].1.as_str());
            }
            i -= 1;
        }
        assert(v.take(0).len() == 0);
        None
    }
}

fn flag_key(a: &str) -> (r: Option<String>)
    ensures
        match r {
            Some(k) => is_flag(a@) && k@ == a@.skip(2),
            None => !is_flag(a@),
        },
{
    let v = chars_of(a);
    if v.len() >= 2 && v[0] == '-' && v[1] == '-' {
        let k = crate::text::string_of_range(&v, 2, v.len());
        assert(v@.subrange(2, v@.len() as int) == v@.skip(2));
        Some(k)
    } else {
        None
    }
}

/// `parse_options`: `--key value` pairs; a flag without a value is set to
/// the empty string.
pub fn parse_options(args: &Vec<String>) -> (r: Options)
    ensures
        r@ == options_fold(texts(args@)).0,
{
    let ghost av = texts(args@);
    let mut entries: Vec<(String, String)> = Vec::new();
    let mut pending: Option<String> = None;
    let mut i: usize = 0;
    while i < args.len()
        invariant
            i <= args@.len(),
            av == texts(args@),
            (pairs_view(entries@), crate::plan::ov(pending)) == options_fold(av.take(i as int)),
        decreases args.len() - i,
    {
        assert(av.take(i + 1).drop_last() == av.take(i as int));
        let arg = args[i].as_str();
        match flag_key(arg) {
            Some(k) => {
                let opts = Options { entries };
                let present = opts.get(k.as_str()).is_some();
                entries = opts.entries;
                if !present {
                    let ghost before = entries@;
                    entries.push((k.clone(), String::new()));
                    assert(pairs_view(entries@) =~= pairs_view(before).push((k@, Seq::empty())));
                }
                pending = Some(k);
            },
            None => {
                match pending {
                    Some(k) => {
                        let ghost before = entries@;
                        let ghost kv = k@;
                        entries.push((k, args[i].clone()));
                        assert(pairs_view(entries@) =~= pairs_view(before).push((kv, av[i as int])));
                        pending = None;
                    },
                    None => {},
                }
            },
        }
        i += 1;
    }
    assert(av.take(args@.len() as int) == av);
    Options { entries }
}

/// The setting `--normalize-references` makes: none when it is not given;
/// on when given with any value but `false`, `off` or `0` (trimmed, any
/// case), which turn it off.
pub open spec fn normalize_setting(v: Option<Seq<char>>) -> Option<bool> {
    match v {
        None => None,
        Some(x) => {
            let k = key(x);
            Some(!(k == "false"@ || k == "off"@ || k == "0"@))
        },
    }
}

/// The value of `--normalize-references` as a switch, if it was given.
pub fn normalize_references_flag(value: Option<&str>) -> (r: Option<bool>)
    ensures
        r == normalize_setting(osv(value)),
{
    match value {
        None => None,
        Some(v) => {
            let k = trim_lower(v);
            let k = k.as_str();
            Some(!(str_eq(k, "false") || str_eq(k, "off") || str_eq(k, "0")))
        },
    }
}

// ---------------------------------------------------------------------
// Style references without a template.
// ---------------------------------------------------------------------
/// The style ids the blocks name, in block order, with repeats.
pub open spec fn style_ids(blocks: Seq<BlockView>) -> Seq<Seq<char>>
    decreases blocks.len(),
{
    if blocks.len() == 0 {
        Seq::empty()
    } else {
        style_ids(blocks.drop_last()) + match blocks.last().format {
            Some(f) => match nonempty(f.style_id) {
                Some(s) => seq![s],
                None => Seq::empty(),
            },
            None => Seq::empty(),
        }
    }
}

/// Lexicographic order of texts by character (the order of their UTF-8
/// bytes).
pub open spec fn text_lt(a: Seq<char>, b: Seq<char>) -> bool
    decreases a.len(),
{
    if a.len() == 0 {
        b.len() > 0
    } else if b.len() == 0 {
        false
    } else if a[0] != b[0] {
        (a[0] as int) < (b[0] as int)
    } else {
        text_lt(a.drop_first(), b.drop_first())
    }
}

pub proof fn lemma_text_lt_irreflexive(a: Seq<char>)
    ensures
        !text_lt(a, a),
    decreases a.len(),
{
    if a.len() > 0 {
        lemma_text_lt_irreflexive(a.drop_first());
    }
}

pub proof fn lemma_text_lt_transitive(a: Seq<char>, b: Seq<char>, c: Seq<char>)
    requires
        text_lt(a, b),
        text_lt(b, c),
    ensures
        text_lt(a, c),
    decreases a.len(),
{
    if a.len() > 0 && b.len() > 0 && c.len() > 0 && a[0] == b[0] && b[0] == c[0] {
        lemma_text_lt_transitive(a.drop_first(), b.drop_first(), c.drop_first());
    }
}

pub proof fn lemma_text_lt_total(a: Seq<char>, b: Seq<char>)
    requires
        a != b,
    ensures
        text_lt(a, b) || text_lt(b, a),
    decreases a.len(),
{
    if a.len() > 0 && b.len() > 0 && a[0] == b[0] {
        if a.drop_first() == b.drop_first() {
            assert(a.drop_first().len() == b.drop_first().len());
            assert(a.len() == b.len());
            assert forall|i: int| 0 <= i < a.len() implies a[i] == b[i] by {
                if i > 0 {
                    assert(a[i] == a.drop_first()[i - 1]);
                    assert(b[i] == b.drop_first()[i - 1]);
                }
            }
            assert(a =~= b);
        } else {
            lemma_text_lt_total(a.drop_first(), b.drop_first());
        }
    } else if a.len() == 0 && b.len() == 0 {
        assert(a =~= b);
    } else if a.len() > 0 && b.len() > 0 {
        assert((a[0] as int) != (b[0] as int));
    }
}

/// `a < b` on texts.
pub fn text_less(a: &str, b: &str) -> (r: bool)
    ensures
        r == text_lt(a@, b@),
{
    let x = chars_of(a);
    let y = chars_of(b);
    assert(x@.skip(0) == x@);
    assert(y@.skip(0) == y@);
    let mut i: usize = 0;
    while i < x.len() && i < y.len()
        invariant
            x@ == a@,
            y@ == b@,
            i <= x@.len(),
            i <= y@.len(),
            text_lt(a@, b@) == text_lt(x@.skip(i as int), y@.skip(i as int)),
        decreases x.len() - i,
    {
        assert(x@.skip(i as int)[0] == x@[i as int]);
        assert(y@.skip(i as int)[0] == y@[i as int]);
        if x[i] != y[i] {
            return x[i] < y[i];
        }
        assert(x@.skip(i as int).drop_first() == x@.skip(i + 1));
        assert(y@.skip(i as int).drop_first() == y@.skip(i + 1));
        i += 1;
    }
    x.len() - i == 0 && y.len() - i > 0
}

/// Strictly ascending: sorted, without repeats.
pub open spec fn strictly_sorted(v: Seq<Seq<char>>) -> bool {
    forall|i: int, j: int| 0 <= i < j < v.len() ==> text_lt(#[trigger] v[i], #[trigger] v[j])
}

fn insert_sorted(v: &mut Vec<String>, x: String)
    requires
        strictly_sorted(texts(old(v)@)),
    ensures
        strictly_sorted(texts(final(v)@)),
        forall|y: Seq<char>| texts(final(v)@).contains(y) <==> (texts(old(v)@).contains(y) || y == x@),
{
    let ghost o = texts(v@);
    let mut p: usize = 0;
    while p < v.len() && text_less(v[p].as_str(), x.as_str())
        invariant
            p <= v@.len(),
            o == texts(v@),
            strictly_sorted(o),
            forall|j: int| 0 <= j < p ==> text_lt(#[trigger] o[j], x@),
        decreases v.len() - p,
    {
        p += 1;
    }
    if p < v.len() && str_eq(v[p].as_str(), x.as_str()) {
        assert(o[p as int] == x@);
        return ;
    }
    proof {
        if p < o.len() {
            assert(!text_lt(o[p as int], x@));
            lemma_text_lt_total(o[p as int], x@);
            assert(text_lt(x@, o[p as int]));
        }
    }
    let ghost xv = x@;
    v.insert(p, x);
    let ghost n = texts(v@);
    assert(n =~= o.insert(p as int, xv));
    assert forall|i: int, j: int| 0 <= i < j < n.len() implies text_lt(#[trigger] n[i], #[trigger] n[j]) by {
        if j < p {
            assert(n[i] == o[i] && n[j] == o[j]);
        } else if j == p {
            assert(n[i] == o[i]);
        } else if i < p {
            assert(n[i] == o[i] && n[j] == o[j - 1]);
            assert(text_lt(o[i], xv));
            assert(text_lt(xv, o[p as int]));
            if j - 1 > p {
                lemma_text_lt_transitive(xv, o[p as int], o[j - 1]);
            }
            lemma_text_lt_transitive(o[i], xv, o[j - 1]);
        } else if i == p {
            assert(n[j] == o[j - 1]);
            if j - 1 > p {
                lemma_text_lt_transitive(xv, o[p as int], o[j - 1]);
            }
        } else {
            assert(n[i] == o[i - 1] && n[j] == o[j - 1]);
        }
    }
    assert forall|y: Seq<char>| n.contains(y) <==> (o.contains(y) || y == xv) by {
        if n.contains(y) {
            let k = choose|k: int| 0 <= k < n.len() && n[k] == y;
            if k < p {
                assert(o[k] == y);
            } else if k > p {
                assert(o[k - 1] == y);
            }
        }
        if o.contains(y) {
            let k = choose|k: int| 0 <= k < o.len() && o[k] == y;
            if k < p {
                assert(n[k] == y);
            } else {
                assert(n[k + 1] == y);
            }
        }
        if y == xv {
            assert(n[p as int] == y);
        }
    }
}

/// The texts of `v`, each once, in ascending order (`sort` then `dedup`).
pub fn unique_sorted(v: &Vec<String>) -> (r: Vec<String>)
    ensures
        strictly_sorted(texts(r@)),
        forall|y: Seq<char>| texts(r@).contains(y) <==> texts(v@).contains(y),
{
    let mut out: Vec<String> = Vec::new();
    let mut i: usize = 0;
    while i < v.len()
        invariant
            i <= v@.len(),
            strictly_sorted(texts(out@)),
            forall|y: Seq<char>| texts(out@).contains(y) <==> texts(v@).take(i as int).contains(y),
        decreases v.len() - i,
    {
        let ghost before = texts(v@).take(i as int);
        insert_sorted(&mut out, v[i].clone());
        assert forall|y: Seq<char>| texts(v@).take(i + 1).contains(y) <==> (before.contains(y) || y == v@[i as int]@) by {
            assert(texts(v@).take(i + 1) =~= before.push(v@[i as int]@));
            let t = texts(v@).take(i + 1);
            if t.contains(y) {
                let k = choose|k: int| 0 <= k < t.len() && t[k] == y;
                if k < i {
                    assert(before[k] == y);
                }
            }
            if before.contains(y) {
                let k = choose|k: int| 0 <= k < before.len() && before[k] == y;
                assert(texts(v@).take(i + 1)[k] == y);
            }
            if y == v@[i as int]@ {
                assert(texts(v@).take(i + 1)[i as int] == y);
            }
        }
        i += 1;
    }
    assert(texts(v@).take(v@.len() as int) =~= texts(v@));
    out
}

/// The style ids of a plan's blocks, in block order.
pub fn plan_style_refs(plan: &FormatPlan) -> (r: Vec<String>)
    ensures
        texts(r@) == style_ids(plan@.blocks),
{
    let ghost bv = plan@.blocks;
    let mut out: Vec<String> = Vec::new();
    let mut i: usize = 0;
    while i < plan.blocks.len()
        invariant
            i <= plan.blocks@.len(),
            bv == plan@.blocks,
            texts(out@) == style_ids(bv.take(i as int)),
        decreases plan.blocks.len() - i,
    {
        assert(bv.take(i + 1).drop_last() == bv.take(i as int));
        assert(bv.take(i + 1).last() == plan.blocks@[i as int]@);
        let ghost before = out@;
        match &plan.blocks[i].format {
            Some(f) => match &f.style_id {
                Some(s) => if !s.as_str().is_empty() {
                    out.push(s.clone());
                    assert(texts(out@) =~= texts(before) + seq![s@]);
                } else {
                    assert(texts(out@) =~= texts(before) + Seq::<Seq<char>>::empty());
                },
                None => {
                    assert(texts(out@) =~= texts(before) + Seq::<Seq<char>>::empty());
                },
            },
            None => {
                assert(texts(out@) =~= texts(before) + Seq::<Seq<char>>::empty());
            },
        }
        i += 1;
    }
    assert(bv.take(plan.blocks@.len() as int) == bv);
    out
}

/// Texts joined with `sep`.
pub open spec fn joined(v: Seq<Seq<char>>, sep: Seq<char>) -> Seq<char>
    decreases v.len(),
{
    if v.len() == 0 {
        Seq::empty()
    } else if v.len() == 1 {
        v[0]
    } else {
        joined(v.drop_last(), sep) + sep + v.last()
    }
}

fn join_texts(v: &Vec<String>, sep: &str) -> (r: String)
    ensures
        r@ == joined(texts(v@), sep@),
{
    let ghost tv = texts(v@);
    let mut out = String::new();
    let mut i: usize = 0;
    while i < v.len()
        invariant
            i <= v@.len(),
            tv == texts(v@),
            out@ == joined(tv.take(i as int), sep@),
        decreases v.len() - i,
    {
        assert(tv.take(i + 1).drop_last() == tv.take(i as int));
        if i > 0 {
            out.append(sep);
        } else {
            assert(tv.take(0).len() == 0);
            assert(out@ =~= Seq::<char>::empty());
        }
        out.append(v[i].as_str());
        i += 1;
    }
    assert(tv.take(v@.len() as int) == tv);
    out
}

/// The warning for style references that no template can resolve.
pub open spec fn style_warning_text(count: nat, ids: Seq<char>) -> Seq<char> {
    "警告: plan 里有 "@ + decimal(count) + " 处 format.styleId 引用 ("@ + ids
        + ")，但未提供 --template <docx>。\n引擎不会复制任何 word/styles.xml 进输出，<w:pStyle> 将是 dangling 引用，\nWord 渲染时会回退到默认 Normal 样式。如需让样式生效，请补上 \n--template <docx>，例如 --template samples\\template.docx。"@
}

/// `build` without a template: when blocks name paragraph styles, the
/// warning that those references dangle, with how many there are and the
/// distinct ids in ascending order.
pub fn dangling_style_warning(plan: &FormatPlan, has_template: bool) -> (r: Option<String>)
    ensures
        has_template || style_ids(plan@.blocks).len() == 0 ==> r is None,
        !has_template && style_ids(plan@.blocks).len() > 0 ==> (r matches Some(m) && exists|ids: Seq<Seq<char>>|
            #![trigger strictly_sorted(ids)]
            strictly_sorted(ids) && (forall|y: Seq<char>| ids.contains(y) <==> style_ids(plan@.blocks).contains(y))
                && m@ == style_warning_text(style_ids(plan@.blocks).len(), joined(ids, ", "@))),
{
    if has_template {
        return None;
    }
    let refs = plan_style_refs(plan);
    if refs.len() == 0 {
        return None;
    }
    let uniq = unique_sorted(&refs);
    let list = join_texts(&uniq, ", ");
    let mut m = String::from_str("警告: plan 里有 ");
    push_decimal(&mut m, refs.len() as u64);
    m.append(" 处 format.styleId 引用 (");
    m.append(list.as_str());
    m.append(
        ")，但未提供 --template <docx>。\n引擎不会复制任何 word/styles.xml 进输出，<w:pStyle> 将是 dangling 引用，\nWord 渲染时会回退到默认 Normal 样式。如需让样式生效，请补上 \n--template <docx>，例如 --template samples\\template.docx。",
    );
    assert(strictly_sorted(texts(uniq@)));
    Some(m)
}

} // verus!
