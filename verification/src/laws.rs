//! Laws of the library: properties that relate several functions, stated
//! and proved over the same spec functions the contracts use.
use vstd::prelude::*;

use crate::ast::ArgNeed;
use crate::ast::Latex;
use crate::ast::Statement;
use crate::codegen::arg_text;
use crate::codegen::args_text;
use crate::codegen::comma_join;
use crate::codegen::fndef_command;
use crate::codegen::fndef_prefix;
use crate::codegen::latex_text;
use crate::codegen::usepackage_text;
use crate::token::FunctionDefKind;
use crate::trim::trim_end_text;
use crate::trim::trim_start_text;
use crate::trim::trim_text;

verus! {

/// The macro-definition prefix keeps one fixed order for every one of
/// the sixteen styles: `\long` first when present, `\outer` second when
/// present, then the definer keyword; `\outer` never precedes `\long`.
pub proof fn lemma_fndef_prefix_order(kind: FunctionDefKind)
    ensures
        kind.long && kind.outer ==> fndef_prefix(kind) == "\\long\\outer"@ + fndef_command(kind),
        kind.long && !kind.outer ==> fndef_prefix(kind) == "\\long"@ + fndef_command(kind),
        !kind.long && kind.outer ==> fndef_prefix(kind) == "\\outer"@ + fndef_command(kind),
        !kind.long && !kind.outer ==> fndef_prefix(kind) == fndef_command(kind),
{
    reveal_strlit("\\long");
    reveal_strlit("\\outer");
    reveal_strlit("\\long\\outer");
    if kind.long && kind.outer {
        assert(("\\long"@ + "\\outer"@) =~= "\\long\\outer"@);
    }
    if kind.long && !kind.outer {
        assert(("\\long"@ + Seq::<char>::empty()) =~= "\\long"@);
    }
    if !kind.long && kind.outer {
        assert((Seq::<char>::empty() + "\\outer"@) =~= "\\outer"@);
    }
    if !kind.long && !kind.outer {
        assert((Seq::<char>::empty() + Seq::<char>::empty() + fndef_command(kind)) =~= fndef_command(
            kind,
        ));
    }
}

/// The definer keyword is total over the four expansion/global
/// combinations.
pub proof fn lemma_fndef_command_total(kind: FunctionDefKind)
    ensures
        kind.expand && kind.global ==> fndef_command(kind) == "\\xdef"@,
        !kind.expand && kind.global ==> fndef_command(kind) == "\\gdef"@,
        kind.expand && !kind.global ==> fndef_command(kind) == "\\edef"@,
        !kind.expand && !kind.global ==> fndef_command(kind) == "\\def"@,
{
}

/// Joining option groups preserves their order and separates them with
/// single commas: appending one more group appends its rendering, after
/// a comma exactly when something precedes it.  In particular no comma
/// ever trails the last group.
pub proof fn lemma_comma_join_push(opts: Seq<Latex>, o: Latex)
    ensures
        comma_join(opts.push(o)) == comma_join(opts) + (if opts.len() == 0 {
            Seq::<char>::empty()
        } else {
            ","@
        }) + latex_text(o@),
{
    let w = opts.push(o);
    assert(w.drop_last() =~= opts);
    assert(w[w.len() - 1] == o);
    if opts.len() == 0 {
        assert(comma_join(w) == latex_text(o@));
        assert(comma_join(opts) + Seq::<char>::empty() + latex_text(o@) =~= latex_text(o@));
    }
}

/// A package import with a two-group option list renders the groups in
/// order inside one bracket pair, with a single comma between them and
/// none after the last.
pub proof fn lemma_usepackage_two_options(name: Seq<char>, o1: Latex, o2: Latex)
    ensures
        usepackage_text(name, Some(comma_join(seq![o1, o2]))) == "\\usepackage["@ + latex_text(o1@)
            + ","@ + latex_text(o2@) + "]{"@ + name + "}\n"@,
{
    let opts = seq![o1, o2];
    assert(opts.drop_last() =~= seq![o1]);
    assert(comma_join(seq![o1]) == latex_text(o1@));
    assert(comma_join(opts) == latex_text(o1@) + ","@ + latex_text(o2@));
    assert("\\usepackage["@ + (latex_text(o1@) + ","@ + latex_text(o2@)) + "]{"@ + name + "}\n"@
        =~= "\\usepackage["@ + latex_text(o1@) + ","@ + latex_text(o2@) + "]{"@ + name + "}\n"@);
}

/// The four trim-flag combinations act exactly as none, trailing-only,
/// leading-only, and both.
pub proof fn lemma_trim_lattice(s: Seq<char>)
    ensures
        trim_text(s, false, false) == s,
        trim_text(s, false, true) == trim_end_text(s),
        trim_text(s, true, false) == trim_start_text(s),
        trim_text(s, true, true) == trim_end_text(trim_start_text(s)),
{
}

/// Trimming never invents text: the result of any trim-flag combination
/// is a contiguous piece of the input, the dropped leading part is all
/// whitespace, and so is the dropped trailing part.
pub proof fn lemma_trim_is_infix(s: Seq<char>, start: bool, end: bool)
    ensures
        exists|lo: int, hi: int|
            0 <= lo <= hi <= s.len() && trim_text(s, start, end) == s.subrange(lo, hi),
{
    let t = trim_text(s, start, end);
    if start {
        crate::trim::lemma_trim_start_shape(s);
        let a = trim_start_text(s);
        let lo = s.len() - a.len();
        if end {
            crate::trim::lemma_trim_end_shape(a);
            let hi = lo + t.len();
            assert(t =~= s.subrange(lo as int, hi as int)) by {
                assert(forall|i: int|
                    0 <= i < t.len() ==> t[i] == a[i] && a[i] == #[trigger] s[lo + i]);
            }
            assert(0 <= lo <= hi <= s.len() && trim_text(s, start, end) == s.subrange(
                lo as int,
                hi as int,
            ));
        } else {
            assert(a =~= s.subrange(lo as int, s.len() as int));
            assert(0 <= lo <= s.len() && trim_text(s, start, end) == s.subrange(
                lo as int,
                s.len() as int,
            ));
        }
    } else {
        if end {
            crate::trim::lemma_trim_end_shape(s);
            assert(t == s.subrange(0, t.len() as int));
            assert(0 <= 0 <= t.len() <= s.len() && trim_text(s, start, end) == s.subrange(
                0,
                t.len() as int,
            ));
        } else {
            assert(t =~= s.subrange(0, s.len() as int));
            assert(0 <= 0 <= s.len() && trim_text(s, start, end) == s.subrange(
                0,
                s.len() as int,
            ));
        }
    }
}

/// A command invocation that combines a star, an optional argument, and
/// a main argument renders them in exactly that order: `*`, then
/// `[...]`, then `{...}`, with no reordering.
pub proof fn lemma_args_star_opt_main(star_body: Vec<Statement>, o: Vec<Statement>, m: Vec<
    Statement,
>)
    ensures
        args_text(
            seq![
                (ArgNeed::StarArg, star_body),
                (ArgNeed::Optional, o),
                (ArgNeed::MainArg, m),
            ],
        ) == "*"@ + ("["@ + latex_text(o@) + "]"@) + ("{"@ + latex_text(m@) + "}"@),
{
    reveal_with_fuel(args_text, 4);
    let a = seq![(ArgNeed::StarArg, star_body), (ArgNeed::Optional, o), (ArgNeed::MainArg, m)];
    assert(a.drop_last() =~= seq![(ArgNeed::StarArg, star_body), (ArgNeed::Optional, o)]);
    let b = seq![(ArgNeed::StarArg, star_body), (ArgNeed::Optional, o)];
    assert(b.drop_last() =~= seq![(ArgNeed::StarArg, star_body)]);
    let c = seq![(ArgNeed::StarArg, star_body)];
    assert(c.drop_last() =~= Seq::<(ArgNeed, Vec<Statement>)>::empty());
    assert(args_text(c) == Seq::<char>::empty() + arg_text(c[0].0, latex_text(c[0].1@)));
    assert(Seq::<char>::empty() + "*"@ =~= "*"@);
    assert(args_text(c) == "*"@);
    assert(args_text(b) == "*"@ + ("["@ + latex_text(o@) + "]"@));
    assert(args_text(a) == args_text(b) + ("{"@ + latex_text(m@) + "}"@));
}

} // verus!
