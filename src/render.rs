//! The specification renderer: runs `psi` and `f` on tagged dummy inputs and
//! prints the resulting trees in LaTeX, with the declared names in place of
//! the tags.
use crate::absorb::{SymInstance, SymWitness};
use crate::compiler::SigmaProof;
use crate::equations::{SymPoint, SymScalar};
use crate::group::{
    basepoint_encoding, lemma_point_from_encoding, lemma_scalar_from_encoding, point_from_encoding,
    ristretto_multiple, scalar_bytes, scalar_from_encoding, Point, Scalar,
};
use vstd::prelude::*;
use vstd::string::{StrSliceExecFns, StringExecFns};

verus! {

/// A name with each underscore escaped for LaTeX.
pub open spec fn escape_underscores(s: Seq<char>) -> Seq<char>
    decreases s.len(),
{
    if s.len() == 0 {
        Seq::empty()
    } else if s.last() == '_' {
        escape_underscores(s.drop_last()) + seq!['\\', '_']
    } else {
        escape_underscores(s.drop_last()).push(s.last())
    }
}

/// A name set in typewriter type, underscores escaped.
pub open spec fn latex_var_text(name: Seq<char>) -> Seq<char> {
    "\\texttt{"@ + escape_underscores(name) + "}"@
}

/// The decimal digit of `d`.
pub open spec fn digit_char(d: nat) -> char {
    "0123456789"@[d as int]
}

/// The decimal notation of `n`.
pub open spec fn decimal_text(n: nat) -> Seq<char>
    decreases n,
{
    if n < 10 {
        seq![digit_char(n)]
    } else {
        decimal_text(n / 10).push(digit_char(n % 10))
    }
}

/// A scalar tree in LaTeX: constants 1 to 5 as digits, variables bound to
/// `i` (from 1 on) as the `i`-th name, other leaves as `c`, `v` or `?`.
pub open spec fn scalar_latex(s: SymScalar, names: Seq<Seq<char>>) -> Seq<char>
    decreases s,
{
    match s {
        SymScalar::Const(c) => if 1 <= c@ <= 5 {
            decimal_text(c@)
        } else {
            "c"@
        },
        SymScalar::Var(v) => match v {
            Some(c) => if 1 <= c@ <= names.len() {
                latex_var_text(names[c@ - 1])
            } else {
                "v"@
            },
            None => "?"@,
        },
        SymScalar::Add(a, b) => "("@ + scalar_latex(*a, names) + " + "@ + scalar_latex(*b, names)
            + ")"@,
        SymScalar::Sub(a, b) => "("@ + scalar_latex(*a, names) + " - "@ + scalar_latex(*b, names)
            + ")"@,
        SymScalar::Neg(a) => "(-"@ + scalar_latex(*a, names) + ")"@,
        SymScalar::Mul(a, b) => "("@ + scalar_latex(*a, names) + " \\cdot "@ + scalar_latex(
            *b,
            names,
        ) + ")"@,
    }
}

/// The first position of `p` among `tags`.
pub open spec fn tag_index(tags: Seq<Seq<u8>>, p: Seq<u8>) -> Option<nat>
    decreases tags.len(),
{
    if tags.len() == 0 {
        None
    } else if tags[0] == p {
        Some(0)
    } else {
        match tag_index(tags.drop_first(), p) {
            Some(k) => Some(k + 1),
            None => None,
        }
    }
}

/// A point tree in LaTeX: tagged constants as the matching instance name,
/// the base point as `G`, well-known constants by their display name.
pub open spec fn point_latex(
    p: SymPoint,
    names: Seq<Seq<char>>,
    instance_names: Seq<Seq<char>>,
    tags: Seq<Seq<u8>>,
) -> Seq<char>
    decreases p,
{
    match p {
        SymPoint::Const(q) => match tag_index(tags, q@) {
            Some(k) => if k < instance_names.len() {
                latex_var_text(instance_names[k as int])
            } else {
                "P"@
            },
            None => if q@ == basepoint_encoding() {
                "G"@
            } else {
                "P"@
            },
        },
        SymPoint::WellKnownConst(n, _) => n@,
        SymPoint::Var(v) => match v {
            Some(_) => "P"@,
            None => "?"@,
        },
        SymPoint::Add(a, b) => "("@ + point_latex(*a, names, instance_names, tags) + " + "@
            + point_latex(*b, names, instance_names, tags) + ")"@,
        SymPoint::Sub(a, b) => "("@ + point_latex(*a, names, instance_names, tags) + " - "@
            + point_latex(*b, names, instance_names, tags) + ")"@,
        SymPoint::Neg(a) => "(-"@ + point_latex(*a, names, instance_names, tags) + ")"@,
        SymPoint::Scale(s, a) => scalar_latex(*s, names) + " \\cdot "@ + point_latex(
            *a,
            names,
            instance_names,
            tags,
        ),
    }
}

/// The views of a sequence of names.
pub open spec fn name_views(names: Seq<&str>) -> Seq<Seq<char>> {
    names.map_values(|n: &str| n@)
}

/// Escapes a name for LaTeX and sets it in typewriter type.
pub fn latex_var(name: &str) -> (r: String)
    ensures
        r@ == latex_var_text(name@),
{
    let mut out = String::from_str("\\texttt{");
    let n = name.unicode_len();
    let mut i: usize = 0;
    while i < n
        invariant
            0 <= i <= n,
            n == name@.len(),
            out@ == "\\texttt{"@ + escape_underscores(name@.subrange(0, i as int)),
        decreases n - i,
    {
        let c = name.get_char(i);
        proof {
            let pre = name@.subrange(0, i as int);
            assert(name@.subrange(0, i + 1).drop_last() =~= pre);
            assert(name@.subrange(0, i + 1).last() == c);
        }
        if c == '_' {
            proof {
                reveal_strlit("\\_");
            }
            out.append("\\_");
            proof {
                assert("\\_"@ =~= seq!['\\', '_']);
            }
        } else {
            let piece = name.substring_char(i, i + 1);
            out.append(piece);
            proof {
                assert(piece@ =~= seq![c]);
            }
        }
        i = i + 1;
    }
    assert(name@.subrange(0, n as int) =~= name@);
    out.append("}");
    out
}

/// Writes `n` in decimal.
pub fn decimal(n: usize) -> (r: String)
    ensures
        r@ == decimal_text(n as nat),
    decreases n,
{
    let digits = "0123456789";
    proof {
        reveal_strlit("0123456789");
    }
    if n < 10 {
        let d = digits.substring_char(n, n + 1);
        assert(d@ =~= seq![digit_char(n as nat)]);
        String::from_str(d)
    } else {
        let mut out = decimal(n / 10);
        let d = digits.substring_char(n % 10, n % 10 + 1);
        assert(d@ =~= seq![digit_char((n % 10) as nat)]);
        out.append(d);
        out
    }
}

/// The value `k` of a scalar with `1 <= k <= bound`, if it has one.
fn small_value(s: &Scalar, bound: usize) -> (r: Option<usize>)
    ensures
        r matches Some(k) ==> k == s@ && 1 <= k <= bound,
        r is None ==> !(1 <= s@ <= bound),
{
    let mut k: usize = 1;
    while k <= bound
        invariant
            1 <= k,
            k <= bound + 1,
            s@ < 1 || s@ >= k,
        ensures
            s@ < 1 || s@ > bound,
        decreases bound + 1 - k,
    {
        assert((k as u64) as nat == k as nat);
        if s.equals(&Scalar::from_u64(k as u64)) {
            return Some(k);
        }
        if k == bound {
            break;
        }
        k = k + 1;
    }
    None
}

/// A scalar tree in LaTeX.
pub fn symscalar_to_latex(scalar: &SymScalar, var_names: &[&str]) -> (r: String)
    ensures
        r@ == scalar_latex(*scalar, name_views(var_names@)),
    decreases scalar,
{
    let ghost names = name_views(var_names@);
    match scalar {
        SymScalar::Const(s) => match small_value(s, 5) {
            Some(k) => decimal(k),
            None => {
                proof {
                    reveal_strlit("c");
                }
                String::from_str("c")
            },
        },
        SymScalar::Var(v) => match v {
            Some(s) => match small_value(s, var_names.len()) {
                Some(k) => latex_var(var_names[k - 1]),
                None => String::from_str("v"),
            },
            None => String::from_str("?"),
        },
        SymScalar::Add(a, b) => {
            let mut out = String::from_str("(");
            out.append(symscalar_to_latex(a, var_names).as_str());
            out.append(" + ");
            out.append(symscalar_to_latex(b, var_names).as_str());
            out.append(")");
            out
        },
        SymScalar::Sub(a, b) => {
            let mut out = String::from_str("(");
            out.append(symscalar_to_latex(a, var_names).as_str());
            out.append(" - ");
            out.append(symscalar_to_latex(b, var_names).as_str());
            out.append(")");
            out
        },
        SymScalar::Neg(a) => {
            let mut out = String::from_str("(-");
            out.append(symscalar_to_latex(a, var_names).as_str());
            out.append(")");
            out
        },
        SymScalar::Mul(a, b) => {
            let mut out = String::from_str("(");
            out.append(symscalar_to_latex(a, var_names).as_str());
            out.append(" \\cdot ");
            out.append(symscalar_to_latex(b, var_names).as_str());
            out.append(")");
            out
        },
    }
}

/// The first position of `p` among `tags`.
fn find_tag(tags: &[Point], p: &Point) -> (r: Option<usize>)
    ensures
        r matches Some(k) ==> tag_index(tags@.map_values(|t: Point| t@), p@) == Some(k as nat),
        r is None ==> tag_index(tags@.map_values(|t: Point| t@), p@) is None,
{
    let ghost views = tags@.map_values(|t: Point| t@);
    let mut k: usize = 0;
    assert(views.subrange(0, views.len() as int) =~= views);
    while k < tags.len()
        invariant
            0 <= k <= tags@.len(),
            views == tags@.map_values(|t: Point| t@),
            tag_index(views, p@) == match tag_index(views.subrange(k as int, views.len() as int), p@) {
                Some(j) => Some((j + k) as nat),
                None => None::<nat>,
            },
        decreases tags@.len() - k,
    {
        let ghost rest = views.subrange(k as int, views.len() as int);
        assert(rest.drop_first() =~= views.subrange(k + 1, views.len() as int));
        if tags[k].equals(p) {
            return Some(k);
        }
        k = k + 1;
    }
    assert(views.subrange(k as int, views.len() as int).len() == 0);
    None
}

/// A point tree in LaTeX, with tagged instance points named.
pub fn sympoint_to_latex_with_context(
    point: &SymPoint,
    var_names: &[&str],
    instance_names: &[&str],
    tags: &[Point],
) -> (r: String)
    ensures
        r@ == point_latex(
            *point,
            name_views(var_names@),
            name_views(instance_names@),
            tags@.map_values(|t: Point| t@),
        ),
    decreases point,
{
    match point {
        SymPoint::Const(p) => match find_tag(tags, p) {
            Some(k) => if k < instance_names.len() {
                let r = latex_var(instance_names[k]);
                assert(name_views(instance_names@)[k as int] == instance_names@[k as int]@);
                r
            } else {
                String::from_str("P")
            },
            None => if p.equals(&Point::basepoint()) {
                String::from_str("G")
            } else {
                String::from_str("P")
            },
        },
        SymPoint::WellKnownConst(n, _) => {
            let r = String::from_str(*n);
            assert(r@ == point_latex(
                *point,
                name_views(var_names@),
                name_views(instance_names@),
                tags@.map_values(|t: Point| t@),
            ));
            r
        },
        SymPoint::Var(v) => match v {
            Some(_) => String::from_str("P"),
            None => String::from_str("?"),
        },
        SymPoint::Add(a, b) => {
            let mut out = String::from_str("(");
            out.append(sympoint_to_latex_with_context(a, var_names, instance_names, tags).as_str());
            out.append(" + ");
            out.append(sympoint_to_latex_with_context(b, var_names, instance_names, tags).as_str());
            out.append(")");
            out
        },
        SymPoint::Sub(a, b) => {
            let mut out = String::from_str("(");
            out.append(sympoint_to_latex_with_context(a, var_names, instance_names, tags).as_str());
            out.append(" - ");
            out.append(sympoint_to_latex_with_context(b, var_names, instance_names, tags).as_str());
            out.append(")");
            out
        },
        SymPoint::Neg(a) => {
            let mut out = String::from_str("(-");
            out.append(sympoint_to_latex_with_context(a, var_names, instance_names, tags).as_str());
            out.append(")");
            out
        },
        SymPoint::Scale(s, a) => {
            let mut out = symscalar_to_latex(s, var_names);
            out.append(" \\cdot ");
            out.append(sympoint_to_latex_with_context(a, var_names, instance_names, tags).as_str());
            out
        },
    }
}

/// The text that bytes stand for, read as UTF-8 with invalid sequences
/// replaced.
pub uninterp spec fn utf8_lossy(bytes: Seq<u8>) -> Seq<char>;

/// ASCII bytes as characters.
pub open spec fn ascii_chars(bytes: Seq<u8>) -> Seq<char> {
    bytes.map_values(|b: u8| b as char)
}

/// Relies on `String::from_utf8_lossy`: the text of the bytes, which for
/// ASCII bytes is the bytes themselves.
#[verifier::external_body]
fn lossy_text(bytes: &[u8]) -> (r: String)
    ensures
        r@ == utf8_lossy(bytes@),
        (forall|i: int| 0 <= i < bytes@.len() ==> #[trigger] bytes@[i] < 128) ==> r@
            == ascii_chars(bytes@),
{
    String::from_utf8_lossy(bytes).into_owned()
}

/// Items written one after another, `sep` between neighbours.
pub open spec fn join(items: Seq<Seq<char>>, sep: Seq<char>) -> Seq<char>
    decreases items.len(),
{
    if items.len() == 0 {
        Seq::empty()
    } else if items.len() == 1 {
        items[0]
    } else {
        join(items.drop_last(), sep) + sep + items.last()
    }
}

/// The dummy scalars `1, 2, ..., n`.
pub open spec fn counting(n: nat) -> Seq<Scalar> {
    Seq::new(n, |i: int| scalar_from_encoding(scalar_bytes((i + 1) as nat)))
}

/// The encodings of the dummy points `2G, 3G, ...`, `n` of them.
pub open spec fn tag_encodings(n: nat) -> Seq<Seq<u8>> {
    Seq::new(n, |i: int| ristretto_multiple((i + 2) as nat, basepoint_encoding()))
}

/// The dummy points `2G, 3G, ...`, `n` of them.
pub open spec fn tag_points(n: nat) -> Seq<Point> {
    tag_encodings(n).map_values(|e: Seq<u8>| point_from_encoding(e))
}

/// The lines `* $psi_k = f_k$`, as far as both go.
pub open spec fn check_lines(psi: Seq<Seq<char>>, f: Seq<Seq<char>>) -> Seq<Seq<char>> {
    let n = if psi.len() < f.len() {
        psi.len()
    } else {
        f.len()
    };
    Seq::new(n, |k: int| "* $"@ + psi[k] + " = "@ + f[k] + "$"@)
}

/// The Markdown and LaTeX description of a protocol.
pub open spec fn document_text(
    label: Seq<char>,
    witness_names: Seq<Seq<char>>,
    instance_names: Seq<Seq<char>>,
    n_w: nat,
    n_s: nat,
    n_p: nat,
    psi: Seq<Seq<char>>,
    f: Seq<Seq<char>>,
) -> Seq<char> {
    let wn = join(witness_names.map_values(|n: Seq<char>| latex_var_text(n)), ", "@);
    let xn = join(instance_names.map_values(|n: Seq<char>| latex_var_text(n)), ", "@);
    let out = decimal_text(f.len());
    "The Sigma protocol is labeled as `"@ + label + "`.\n\nThe **witness** is defined as $\\mathbf \\omega = \\{ "@
        + wn + " \\}$.\n\nThe **instance** is defined as $\\mathbf X = \\{ "@ + xn
        + " \\}$.\n\nThe sigma protocol allows us to prove knowledge of $\\mathbf \\omega$ such that  $\\psi(\\mathbf \\omega) = f(\\mathbf X)$.\n\nThe homomorphism $\\psi$ is defined as:\n\n$$\n\\begin{aligned}\n\\psi : \\mathbb{F}^{"@
        + decimal_text(n_w) + "} &\\to \\mathbb{G}^{"@ + out
        + "} \\\\\n\\mathbf \\omega &\\mapsto ("@ + join(psi, ", "@)
        + ")\n\\end{aligned}\n$$\n\nThe transformation $f$ is defined as:\n\n$$\n\\begin{aligned}\nf : \\mathbb{F}^{"@
        + decimal_text(n_s) + "} \\times \\mathbb{G}^{"@ + decimal_text(n_p) + "} &\\to \\mathbb{G}^{"@
        + out + "} \\\\\n\\mathbf X &\\mapsto ("@ + join(f, ", "@)
        + ")\n\\end{aligned}\n$$\n\nIn other words, the following is being proven:\n\n"@ + join(
        check_lines(psi, f),
        "\n"@,
    ) + "\n"@
}

/// Each point tree in LaTeX.
pub open spec fn points_latex(
    points: Seq<SymPoint>,
    names: Seq<Seq<char>>,
    instance_names: Seq<Seq<char>>,
    tags: Seq<Seq<u8>>,
) -> Seq<Seq<char>> {
    points.map_values(|p: SymPoint| point_latex(p, names, instance_names, tags))
}

/// The description `spec::<P>()` renders: `psi` and `f` run on the dummy
/// witness `1, 2, ...` and the dummy instance of scalars `1, 2, ...` and
/// points `2G, 3G, ...`, printed with the declared names.
pub open spec fn spec_document<P: SigmaProof>() -> Seq<char> {
    let n_w = P::WITNESS::arity();
    let n_s = P::INSTANCE::scalar_arity();
    let n_p = P::INSTANCE::point_arity();
    let w = P::WITNESS::spec_from_values(counting(n_w));
    let x = P::INSTANCE::spec_from_values(counting(n_s), tag_points(n_p));
    let names = P::WITNESS::var_names();
    let instance_names = P::INSTANCE::field_names();
    let point_names = instance_names.subrange(n_s as int, instance_names.len() as int);
    let tags = tag_encodings(n_p);
    document_text(
        utf8_lossy(P::spec_label()),
        names,
        instance_names,
        n_w,
        n_s,
        n_p,
        points_latex(P::spec_psi(w, x), names, point_names, tags),
        points_latex(P::spec_f(x), names, point_names, tags),
    )
}

/// Joins strings, `sep` between neighbours.
fn join_strings(items: &Vec<String>, sep: &str) -> (r: String)
    ensures
        r@ == join(items@.map_values(|s: String| s@), sep@),
{
    let ghost views = items@.map_values(|s: String| s@);
    let mut out = String::new();
    let mut i: usize = 0;
    while i < items.len()
        invariant
            0 <= i <= items@.len(),
            views == items@.map_values(|s: String| s@),
            out@ == join(views.subrange(0, i as int), sep@),
        decreases items@.len() - i,
    {
        if i > 0 {
            out.append(sep);
        }
        out.append(items[i].as_str());
        proof {
            let next = views.subrange(0, i + 1);
            assert(next.drop_last() =~= views.subrange(0, i as int));
            if i == 0 {
                assert(join(views.subrange(0, 0), sep@) =~= Seq::<char>::empty());
            }
        }
        i = i + 1;
    }
    assert(views.subrange(0, items@.len() as int) =~= views);
    out
}

/// The dummy scalars `1, 2, ..., n`.
fn counting_scalars(n: usize) -> (r: Vec<Scalar>)
    ensures
        r@ == counting(n as nat),
{
    let mut out: Vec<Scalar> = Vec::new();
    let mut i: usize = 0;
    while i < n
        invariant
            0 <= i <= n,
            out@ == counting(i as nat),
        decreases n - i,
    {
        let s = Scalar::from_u64(i as u64 + 1);
        let bytes = s.to_bytes();
        proof {
            lemma_scalar_from_encoding(s);
            assert(counting((i + 1) as nat) =~= counting(i as nat).push(s));
        }
        out.push(s);
        i = i + 1;
    }
    out
}

/// The dummy points `2G, 3G, ...`, `n` of them.
fn tag_point_values(n: usize) -> (r: Vec<Point>)
    ensures
        r@ == tag_points(n as nat),
        r@.map_values(|t: Point| t@) == tag_encodings(n as nat),
{
    let g = Point::basepoint();
    let mut out: Vec<Point> = Vec::new();
    let mut i: usize = 0;
    while i < n
        invariant
            0 <= i <= n,
            g@ == basepoint_encoding(),
            out@ == tag_points(i as nat),
            out@.map_values(|t: Point| t@) == tag_encodings(i as nat),
        decreases n - i,
    {
        let k = Scalar::from_u64(i as u64).add(&Scalar::from_u64(2));
        proof {
            crate::group::lemma_small_below_order(i as nat + 2);
        }
        let p = g.scale(&k);
        proof {
            lemma_point_from_encoding(p);
            assert(tag_points((i + 1) as nat) =~= tag_points(i as nat).push(p));
            assert(out@.push(p).map_values(|t: Point| t@) =~= tag_encodings((i + 1) as nat));
        }
        out.push(p);
        i = i + 1;
    }
    out
}

/// Each point tree in LaTeX.
fn render_points(
    points: &Vec<SymPoint>,
    var_names: &[&str],
    instance_names: &[&str],
    tags: &[Point],
) -> (r: Vec<String>)
    ensures
        r@.map_values(|s: String| s@) == points_latex(
            points@,
            name_views(var_names@),
            name_views(instance_names@),
            tags@.map_values(|t: Point| t@),
        ),
{
    let mut out: Vec<String> = Vec::new();
    let mut i: usize = 0;
    while i < points.len()
        invariant
            0 <= i <= points@.len(),
            out@.map_values(|s: String| s@) == points_latex(
                points@.subrange(0, i as int),
                name_views(var_names@),
                name_views(instance_names@),
                tags@.map_values(|t: Point| t@),
            ),
        decreases points@.len() - i,
    {
        let text = sympoint_to_latex_with_context(&points[i], var_names, instance_names, tags);
        proof {
            assert(points@.subrange(0, i + 1) =~= points@.subrange(0, i as int).push(points@[i as int]));
            assert(out@.push(text).map_values(|s: String| s@) =~= out@.map_values(|s: String| s@).push(text@));
            assert(points_latex(
                points@.subrange(0, i + 1),
                name_views(var_names@),
                name_views(instance_names@),
                tags@.map_values(|t: Point| t@),
            ) =~= points_latex(
                points@.subrange(0, i as int),
                name_views(var_names@),
                name_views(instance_names@),
                tags@.map_values(|t: Point| t@),
            ).push(text@));
        }
        out.push(text);
        i = i + 1;
    }
    assert(points@.subrange(0, points@.len() as int) =~= points@);
    out
}

/// Each name set in typewriter type.
fn latex_names(names: &Vec<&str>) -> (r: Vec<String>)
    ensures
        r@.map_values(|s: String| s@) == name_views(names@).map_values(
            |n: Seq<char>| latex_var_text(n),
        ),
{
    let mut out: Vec<String> = Vec::new();
    let mut i: usize = 0;
    while i < names.len()
        invariant
            0 <= i <= names@.len(),
            out@.map_values(|s: String| s@) == name_views(names@.subrange(0, i as int)).map_values(
                |n: Seq<char>| latex_var_text(n),
            ),
        decreases names@.len() - i,
    {
        let text = latex_var(names[i]);
        proof {
            assert(names@.subrange(0, i + 1) =~= names@.subrange(0, i as int).push(names@[i as int]));
            assert(name_views(names@.subrange(0, i + 1)) =~= name_views(
                names@.subrange(0, i as int),
            ).push(names@[i as int]@));
            assert(out@.push(text).map_values(|s: String| s@) =~= out@.map_values(|s: String| s@).push(
                text@,
            ));
            assert(out@.push(text).map_values(|s: String| s@) =~= name_views(
                names@.subrange(0, i + 1),
            ).map_values(|n: Seq<char>| latex_var_text(n)));
        }
        out.push(text);
        i = i + 1;
    }
    assert(names@.subrange(0, names@.len() as int) =~= names@);
    out
}

/// The lines `* $psi_k = f_k$`, as far as both go.
fn render_checks(psi: &Vec<String>, f: &Vec<String>) -> (r: Vec<String>)
    ensures
        r@.map_values(|s: String| s@) == check_lines(
            psi@.map_values(|s: String| s@),
            f@.map_values(|s: String| s@),
        ),
{
    let ghost pv = psi@.map_values(|s: String| s@);
    let ghost fv = f@.map_values(|s: String| s@);
    let n = if psi.len() < f.len() {
        psi.len()
    } else {
        f.len()
    };
    let mut out: Vec<String> = Vec::new();
    let mut k: usize = 0;
    while k < n
        invariant
            0 <= k <= n,
            n <= psi@.len(),
            n <= f@.len(),
            pv == psi@.map_values(|s: String| s@),
            fv == f@.map_values(|s: String| s@),
            out@.len() == k,
            forall|j: int|
                0 <= j < k ==> (#[trigger] out@[j])@ == "* $"@ + pv[j] + " = "@ + fv[j] + "$"@,
        decreases n - k,
    {
        let mut line = String::from_str("* $");
        line.append(psi[k].as_str());
        line.append(" = ");
        line.append(f[k].as_str());
        line.append("$");
        out.push(line);
        k = k + 1;
    }
    assert(out@.map_values(|s: String| s@) =~= check_lines(pv, fv));
    out
}

/// Renders the Markdown and LaTeX description of `P`: `psi` and `f` are run
/// on tagged dummy inputs and printed with the declared names.
pub fn spec<P: SigmaProof>() -> (r: String)
    ensures
        r@ == spec_document::<P>(),
{
    let n_w = P::WITNESS::num_scalars();
    let n_s = P::INSTANCE::num_scalars();
    let n_p = P::INSTANCE::num_points();
    let label = lossy_text(P::label());
    let dummy = counting_scalars(n_w);
    let witness = match P::WITNESS::from_values(dummy.as_slice()) {
        Ok(w) => w,
        Err(_) => {
            return String::new();
        },
    };
    let instance_scalars = counting_scalars(n_s);
    let tags = tag_point_values(n_p);
    let instance = match P::INSTANCE::from_values(instance_scalars.as_slice(), tags.as_slice()) {
        Ok(x) => x,
        Err(_) => {
            return String::new();
        },
    };
    proof {
        witness.lemma_arity();
        instance.lemma_arity();
    }
    let mut var_names: Vec<&'static str> = Vec::new();
    let mut i: usize = 0;
    while i < n_w
        invariant
            0 <= i <= n_w,
            n_w == P::WITNESS::arity(),
            P::WITNESS::var_names().len() == n_w,
            name_views(var_names@) == P::WITNESS::var_names().subrange(0, i as int),
        decreases n_w - i,
    {
        let name = P::WITNESS::get_var_name(i);
        proof {
            assert(name_views(var_names@.push(name)) =~= name_views(var_names@).push(name@));
            assert(name_views(var_names@.push(name)) =~= P::WITNESS::var_names().subrange(
                0,
                i + 1,
            ));
        }
        var_names.push(name);
        i = i + 1;
    }
    assert(P::WITNESS::var_names().subrange(0, n_w as int) =~= P::WITNESS::var_names());
    let instance_names = P::INSTANCE::get_field_names();
    assert(name_views(instance_names@) =~= P::INSTANCE::field_names());
    let mut point_names: Vec<&'static str> = Vec::new();
    let mut j: usize = n_s;
    while j < instance_names.len()
        invariant
            n_s <= j <= instance_names@.len(),
            name_views(point_names@) == P::INSTANCE::field_names().subrange(n_s as int, j as int),
            name_views(instance_names@) == P::INSTANCE::field_names(),
        decreases instance_names@.len() - j,
    {
        proof {
            assert(name_views(point_names@.push(instance_names[j as int])) =~= name_views(
                point_names@,
            ).push(instance_names@[j as int]@));
            assert(name_views(instance_names@)[j as int] == instance_names@[j as int]@);
            assert(name_views(point_names@.push(instance_names[j as int])) =~= P::INSTANCE::field_names().subrange(
                n_s as int,
                j + 1,
            ));
        }
        point_names.push(instance_names[j]);
        j = j + 1;
    }
    let f_tex = render_points(&P::f(&instance), var_names.as_slice(), point_names.as_slice(), tags.as_slice());
    let psi_tex = render_points(
        &P::psi(&witness, &instance),
        var_names.as_slice(),
        point_names.as_slice(),
        tags.as_slice(),
    );
    let wn = join_strings(&latex_names(&var_names), ", ");
    let xn = join_strings(&latex_names(&instance_names), ", ");
    let out_len = decimal(f_tex.len());
    let mut doc = String::from_str("The Sigma protocol is labeled as `");
    doc.append(label.as_str());
    doc.append("`.\n\nThe **witness** is defined as $\\mathbf \\omega = \\{ ");
    doc.append(wn.as_str());
    doc.append(" \\}$.\n\nThe **instance** is defined as $\\mathbf X = \\{ ");
    doc.append(xn.as_str());
    doc.append(
        " \\}$.\n\nThe sigma protocol allows us to prove knowledge of $\\mathbf \\omega$ such that  $\\psi(\\mathbf \\omega) = f(\\mathbf X)$.\n\nThe homomorphism $\\psi$ is defined as:\n\n$$\n\\begin{aligned}\n\\psi : \\mathbb{F}^{",
    );
    doc.append(decimal(n_w).as_str());
    doc.append("} &\\to \\mathbb{G}^{");
    doc.append(out_len.as_str());
    doc.append("} \\\\\n\\mathbf \\omega &\\mapsto (");
    doc.append(join_strings(&psi_tex, ", ").as_str());
    doc.append(
        ")\n\\end{aligned}\n$$\n\nThe transformation $f$ is defined as:\n\n$$\n\\begin{aligned}\nf : \\mathbb{F}^{",
    );
    doc.append(decimal(n_s).as_str());
    doc.append("} \\times \\mathbb{G}^{");
    doc.append(decimal(n_p).as_str());
    doc.append("} &\\to \\mathbb{G}^{");
    doc.append(out_len.as_str());
    doc.append("} \\\\\n\\mathbf X &\\mapsto (");
    doc.append(join_strings(&f_tex, ", ").as_str());
    doc.append(")\n\\end{aligned}\n$$\n\nIn other words, the following is being proven:\n\n");
    doc.append(join_strings(&render_checks(&psi_tex, &f_tex), "\n").as_str());
    doc.append("\n");
    proof {
        assert(tags@.map_values(|t: Point| t@) == tag_encodings(n_p as nat));
        assert(f_tex@.map_values(|s: String| s@).len() == f_tex@.len());
        assert(doc@ =~= spec_document::<P>());
    }
    doc
}

} // verus!
