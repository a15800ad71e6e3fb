//! Properties of the classifier and the rewriter that hold for every input.

use vstd::prelude::*;
use crate::nodes::{Expr, ExprKind, MethodCall};
use crate::parse::{classify_args, unravel};
use crate::replace::{
    args_text, arg_text, chain_stmt_text, closure_text, generic_text, kind_name, named_parts, optional_text,
    payload_text, required_parts, RewriteError,
};
use crate::rules::required_fields;
use crate::text::join;
use crate::rules::response_shape;
use crate::structures::{ArgModel, CallModel, ChainModel, ClosureModel};
use crate::text::{spec_is_whitespace, trim_end, trim_start, trimmed};

verus! {

/// The number of calls in the chain that `mc` ends.
pub open spec fn chain_len(mc: MethodCall) -> nat
    decreases mc,
{
    match mc.receiver.kind {
        ExprKind::MethodCall(inner) => 1 + chain_len(inner),
        _ => 1,
    }
}

/// The call `k` levels down the receivers of `mc`; `mc` itself for `k == 0`.
pub open spec fn descend(mc: MethodCall, k: nat) -> MethodCall
    decreases k,
{
    if k == 0 {
        mc
    } else {
        match mc.receiver.kind {
            ExprKind::MethodCall(inner) => descend(inner, (k - 1) as nat),
            _ => mc,
        }
    }
}

/// The unraveled chain lists its calls in source order, however deep the receivers nest: the
/// innermost call, written first, comes first, and `mc` itself, written last, comes last.
pub proof fn lemma_unravel_source_order(mc: MethodCall, strict: bool)
    requires
        unravel(mc, strict) is Some,
    ensures
        unravel(mc, strict)->Some_0.calls.len() == chain_len(mc),
        forall|i: int|
            0 <= i < chain_len(mc) ==> #[trigger] unravel(mc, strict)->Some_0.calls[i] == (
            CallModel {
                field: descend(mc, (chain_len(mc) - 1 - i) as nat).method@,
                args: classify_args(descend(mc, (chain_len(mc) - 1 - i) as nat).args@, strict),
            }),
    decreases mc,
{
    let n = chain_len(mc);
    let calls = unravel(mc, strict)->Some_0.calls;
    match mc.receiver.kind {
        ExprKind::MethodCall(inner) => {
            lemma_unravel_source_order(inner, strict);
            assert forall|i: int| 0 <= i < n implies #[trigger] calls[i] == (CallModel {
                field: descend(mc, (n - 1 - i) as nat).method@,
                args: classify_args(descend(mc, (n - 1 - i) as nat).args@, strict),
            }) by {
                if i < n - 1 {
                    assert(descend(mc, (n - 1 - i) as nat) == descend(inner, (n - 2 - i) as nat));
                }
            }
        },
        _ => {},
    }
}

pub open spec fn starts_with(s: Seq<char>, p: Seq<char>) -> bool {
    p.len() <= s.len() && s.subrange(0, p.len() as int) == p
}

proof fn lemma_starts_with_concat(a: Seq<char>, b: Seq<char>, p: Seq<char>)
    requires
        starts_with(a, p),
    ensures
        starts_with(a + b, p),
{
    assert((a + b).subrange(0, p.len() as int) =~= a.subrange(0, p.len() as int));
}

proof fn lemma_starts_with_self(a: Seq<char>)
    ensures
        starts_with(a, a),
{
    assert(a.subrange(0, a.len() as int) =~= a);
}

/// A replacement is never a builder closure again: it is a direct construction, starting
/// with `Type::new(`, with a block that declares the builder, with a response variant, or
/// with a list of action rows.
pub proof fn lemma_rewrite_is_direct_construction(c: ClosureModel)
    requires
        closure_text(c) is Ok,
    ensures
        ({
            let t = closure_text(c)->Ok_0;
            starts_with(t, c.builder_type + "::new("@) || starts_with(t, "{\nlet mut "@)
                || starts_with(t, "CreateInteractionResponse::"@) || starts_with(t, "vec!["@)
        }),
{
    let t = closure_text(c)->Ok_0;
    if c.builder_type == "CreateInteractionResponse"@ {
        let head = "CreateInteractionResponse::"@ + response_shape(kind_name(c.chain.calls)).0@;
        lemma_starts_with_self("CreateInteractionResponse::"@);
        lemma_starts_with_concat(
            "CreateInteractionResponse::"@,
            response_shape(kind_name(c.chain.calls)).0@,
            "CreateInteractionResponse::"@,
        );
        if response_shape(kind_name(c.chain.calls)).1 is Some {
            let p = response_shape(kind_name(c.chain.calls)).1->Some_0;
            let d = payload_text(c.chain.calls)->Ok_0;
            let prefix = "CreateInteractionResponse::"@;
            lemma_starts_with_concat(head, "("@, prefix);
            lemma_starts_with_concat(head + "("@, p@, prefix);
            lemma_starts_with_concat(head + "("@ + p@, "::new()"@, prefix);
            lemma_starts_with_concat(head + "("@ + p@ + "::new()"@, d, prefix);
            lemma_starts_with_concat(head + "("@ + p@ + "::new()"@ + d, ")"@, prefix);
        }
    } else if c.builder_type == "CreateComponents"@ {
        let v = "vec!["@;
        lemma_starts_with_self(v);
        let rows = crate::replace::rows_parts(c.chain.calls)->Ok_0;
        let j = crate::text::join(rows, ", "@);
        lemma_starts_with_concat(v, j, v);
        lemma_starts_with_concat(v + j, "]"@, v);
    } else {
        let ty = c.builder_type;
        let p = ty + "::new("@;
        let fields = crate::rules::required_fields(ty);
        let req = required_parts(c.chain.calls, fields)->Ok_0;
        let opt = crate::replace::optional_text(c.chain.calls, fields)->Ok_0;
        let j = crate::text::join(req, ", "@);
        let new = p + j + ")"@;
        lemma_starts_with_self(p);
        lemma_starts_with_concat(p, j, p);
        lemma_starts_with_concat(p + j, ")"@, p);
        if c.stmts.len() == 0 {
            lemma_starts_with_concat(new, opt, p);
        } else {
            let pre = crate::replace::prelude_text(c.stmts)->Ok_0;
            let b = "{\nlet mut "@;
            lemma_starts_with_self(b);
            lemma_starts_with_concat(b, c.binding, b);
            lemma_starts_with_concat(b + c.binding, " = "@, b);
            lemma_starts_with_concat(b + c.binding + " = "@, new, b);
            lemma_starts_with_concat(b + c.binding + " = "@ + new, ";\n"@, b);
            lemma_starts_with_concat(b + c.binding + " = "@ + new + ";\n"@, pre, b);
            lemma_starts_with_concat(b + c.binding + " = "@ + new + ";\n"@ + pre, c.binding, b);
            lemma_starts_with_concat(
                b + c.binding + " = "@ + new + ";\n"@ + pre + c.binding,
                opt,
                b,
            );
            lemma_starts_with_concat(
                b + c.binding + " = "@ + new + ";\n"@ + pre + c.binding + opt,
                "\n}"@,
                b,
            );
        }
    }
}

pub open spec fn ends_with(s: Seq<char>, p: Seq<char>) -> bool {
    p.len() <= s.len() && s.subrange(s.len() - p.len(), s.len() as int) == p
}

/// A rewritten statement `b.call1(..).call2(..);` is an assignment `b = b.call1(..)..;`, not a
/// method-call statement, so it is no chain statement on the builder again.
pub proof fn lemma_stmt_rewrite_is_assignment(ch: ChainModel)
    requires
        chain_stmt_text(ch) is Ok,
    ensures
        starts_with(chain_stmt_text(ch)->Ok_0, ch.receiver + " = "@ + ch.receiver),
        ends_with(chain_stmt_text(ch)->Ok_0, ";"@),
{
    let p = ch.receiver + " = "@ + ch.receiver;
    let t = crate::replace::setters_text(ch.calls)->Ok_0;
    lemma_starts_with_self(p);
    lemma_starts_with_concat(p, t, p);
    lemma_starts_with_concat(p + t, ";"@, p);
    let x = p + t;
    assert((x + ";"@).subrange(x.len() as int, (x + ";"@).len() as int) =~= ";"@);
}

/// `at[j]` is the one call that sets `fields[j]`.
pub open spec fn sets_once(calls: Seq<CallModel>, fields: Seq<&'static str>, at: Seq<int>) -> bool {
    &&& at.len() == fields.len()
    &&& forall|j: int|
        0 <= j < fields.len() ==> 0 <= #[trigger] at[j] < calls.len() && calls[at[j]].field
            == fields[j]@
    &&& forall|j: int, k: int|
        0 <= j < fields.len() && 0 <= k < calls.len() && (#[trigger] calls[k]).field
            == (#[trigger] fields[j])@ ==> k == at[j]
}

proof fn lemma_named_once(calls: Seq<CallModel>, f: Seq<char>, k: int)
    requires
        0 <= k < calls.len(),
        calls[k].field == f,
        forall|m: int| 0 <= m < calls.len() && (#[trigger] calls[m]).field == f ==> m == k,
        forall|m: int| 0 <= m < calls.len() ==> (#[trigger] args_text(calls[m].args)) is Ok,
    ensures
        named_parts(calls, f) == Ok::<Seq<Seq<char>>, RewriteError>(
            seq![args_text(calls[k].args)->Ok_0],
        ),
    decreases calls.len(),
{
    let last = calls.len() - 1;
    if k < last {
        assert(calls.drop_last()[k] == calls[k]);
        assert forall|m: int|
            0 <= m < calls.drop_last().len() && (#[trigger] calls.drop_last()[m]).field
                == f implies m == k by {
            assert(calls.drop_last()[m] == calls[m]);
        }
        assert forall|m: int| 0 <= m < calls.drop_last().len() implies (#[trigger] args_text(
            calls.drop_last()[m].args,
        )) is Ok by {
            assert(calls.drop_last()[m] == calls[m]);
        }
        lemma_named_once(calls.drop_last(), f, k);
        assert(calls[last].field != f);
    } else {
        lemma_named_none(calls.drop_last(), f);
        assert(args_text(calls[last].args) is Ok);
        assert(seq![].push(args_text(calls[k].args)->Ok_0) =~= seq![
            args_text(calls[k].args)->Ok_0,
        ]);
    }
}

proof fn lemma_named_none(calls: Seq<CallModel>, f: Seq<char>)
    requires
        forall|m: int| 0 <= m < calls.len() ==> (#[trigger] calls[m]).field != f,
    ensures
        named_parts(calls, f) == Ok::<Seq<Seq<char>>, RewriteError>(seq![]),
    decreases calls.len(),
{
    if calls.len() > 0 {
        assert forall|m: int| 0 <= m < calls.drop_last().len() implies (
        #[trigger] calls.drop_last()[m]).field != f by {
            assert(calls.drop_last()[m] == calls[m]);
        }
        lemma_named_none(calls.drop_last(), f);
        assert(calls[calls.len() - 1].field != f);
    }
}

/// Where each required field is set by exactly one call, the constructor arguments are
/// those calls' arguments in the order of the required-field list, whatever the order of
/// the calls.
pub proof fn lemma_required_in_declared_order(
    calls: Seq<CallModel>,
    fields: Seq<&'static str>,
    at: Seq<int>,
)
    requires
        sets_once(calls, fields, at),
        forall|m: int| 0 <= m < calls.len() ==> (#[trigger] args_text(calls[m].args)) is Ok,
    ensures
        required_parts(calls, fields) == Ok::<Seq<Seq<char>>, RewriteError>(
            Seq::new(fields.len(), |j: int| args_text(calls[at[j]].args)->Ok_0),
        ),
    decreases fields.len(),
{
    if fields.len() > 0 {
        let n = fields.len() - 1;
        let fs = fields.drop_last();
        let ats = at.drop_last();
        assert forall|j: int| 0 <= j < fs.len() implies 0 <= #[trigger] ats[j] < calls.len()
            && calls[ats[j]].field == fs[j]@ by {
            assert(ats[j] == at[j]);
            assert(fs[j] == fields[j]);
        }
        assert forall|j: int, k: int|
            0 <= j < fs.len() && 0 <= k < calls.len() && (#[trigger] calls[k]).field
                == (#[trigger] fs[j])@ implies k == ats[j] by {
            assert(fs[j] == fields[j]);
            assert(ats[j] == at[j]);
        }
        lemma_required_in_declared_order(calls, fs, ats);
        assert(0 <= at[n] < calls.len() && calls[at[n]].field == fields[n]@);
        assert forall|m: int|
            0 <= m < calls.len() && (#[trigger] calls[m]).field == fields[n]@ implies m
            == at[n] by {
            assert(fields[n] == fields.last());
        }
        lemma_named_once(calls, fields.last()@, at[n]);
        assert(Seq::new(fs.len(), |j: int| args_text(calls[ats[j]].args)->Ok_0) + seq![
            args_text(calls[at[n]].args)->Ok_0,
        ] =~= Seq::new(fields.len(), |j: int| args_text(calls[at[j]].args)->Ok_0));
    } else {
        assert(Seq::new(0, |j: int| args_text(calls[at[j]].args)->Ok_0) =~= seq![]);
    }
}

proof fn lemma_optional_ok(calls: Seq<CallModel>, fields: Seq<&'static str>)
    requires
        forall|m: int| 0 <= m < calls.len() ==> (#[trigger] args_text(calls[m].args)) is Ok,
    ensures
        optional_text(calls, fields) is Ok,
    decreases calls.len(),
{
    if calls.len() > 0 {
        assert forall|m: int| 0 <= m < calls.drop_last().len() implies (#[trigger] args_text(
            calls.drop_last()[m].args,
        )) is Ok by {
            assert(calls.drop_last()[m] == calls[m]);
        }
        lemma_optional_ok(calls.drop_last(), fields);
        assert(args_text(calls[calls.len() - 1].args) is Ok);
    }
}

/// A builder closure without a prelude whose required fields are each set by one call
/// becomes `Type::new(..)` with those calls' arguments in the order of the required-field
/// list, followed by the setters of the other calls in source order.
pub proof fn lemma_new_takes_required_in_declared_order(c: ClosureModel, at: Seq<int>)
    requires
        c.stmts.len() == 0,
        sets_once(c.chain.calls, required_fields(c.builder_type), at),
        forall|m: int|
            0 <= m < c.chain.calls.len() ==> (#[trigger] args_text(c.chain.calls[m].args)) is Ok,
    ensures
        generic_text(c) == Ok::<Seq<char>, RewriteError>(
            c.builder_type + "::new("@ + join(
                Seq::new(
                    required_fields(c.builder_type).len(),
                    |j: int| args_text(c.chain.calls[at[j]].args)->Ok_0,
                ),
                ", "@,
            ) + ")"@ + optional_text(c.chain.calls, required_fields(c.builder_type))->Ok_0,
        ),
{
    lemma_required_in_declared_order(c.chain.calls, required_fields(c.builder_type), at);
    lemma_optional_ok(c.chain.calls, required_fields(c.builder_type));
}

/// `trimmed(s)` is a contiguous part of `s` with only whitespace around it, and begins and
/// ends with a character that is not whitespace.
pub proof fn lemma_trimmed_is_source_substring(s: Seq<char>)
    ensures
        exists|a: int, b: int|
            0 <= a <= b <= s.len() && trimmed(s) == s.subrange(a, b) && (forall|k: int|
                0 <= k < a ==> spec_is_whitespace(#[trigger] s[k])) && (forall|k: int|
                b <= k < s.len() ==> spec_is_whitespace(#[trigger] s[k])),
        trimmed(s).len() > 0 ==> !spec_is_whitespace(trimmed(s)[0]) && !spec_is_whitespace(
            trimmed(s).last(),
        ),
{
    let a = lemma_trim_start(s);
    let t = trim_start(s);
    let b = lemma_trim_end(t);
    assert(trimmed(s) == s.subrange(a, a + b));
    assert forall|k: int| a + b <= k < s.len() implies spec_is_whitespace(#[trigger] s[k]) by {
        assert(s[k] == t[k - a]);
    }
    if trimmed(s).len() > 0 {
        assert(trimmed(s)[0] == t[0]);
    }
}

proof fn lemma_trim_start(s: Seq<char>) -> (a: int)
    ensures
        0 <= a <= s.len(),
        trim_start(s) == s.subrange(a, s.len() as int),
        forall|k: int| 0 <= k < a ==> spec_is_whitespace(#[trigger] s[k]),
        trim_start(s).len() > 0 ==> !spec_is_whitespace(trim_start(s)[0]),
    decreases s.len(),
{
    if s.len() > 0 && spec_is_whitespace(s[0]) {
        let a1 = lemma_trim_start(s.drop_first());
        assert(s.drop_first().subrange(a1, s.drop_first().len() as int) =~= s.subrange(
            a1 + 1,
            s.len() as int,
        ));
        assert forall|k: int| 0 <= k < a1 + 1 implies spec_is_whitespace(#[trigger] s[k]) by {
            if k > 0 {
                assert(s[k] == s.drop_first()[k - 1]);
            }
        }
        a1 + 1
    } else {
        assert(s.subrange(0, s.len() as int) =~= s);
        0
    }
}

proof fn lemma_trim_end(s: Seq<char>) -> (b: int)
    ensures
        0 <= b <= s.len(),
        trim_end(s) == s.subrange(0, b),
        forall|k: int| b <= k < s.len() ==> spec_is_whitespace(#[trigger] s[k]),
        trim_end(s).len() > 0 ==> !spec_is_whitespace(trim_end(s).last()),
        trim_end(s).len() > 0 && s.len() > 0 ==> trim_end(s)[0] == s[0],
    decreases s.len(),
{
    if s.len() > 0 && spec_is_whitespace(s.last()) {
        let b1 = lemma_trim_end(s.drop_last());
        assert(s.drop_last().subrange(0, b1) =~= s.subrange(0, b1));
        assert forall|k: int| b1 <= k < s.len() implies spec_is_whitespace(#[trigger] s[k]) by {
            if k < s.len() - 1 {
                assert(s[k] == s.drop_last()[k]);
            }
        }
        b1
    } else {
        assert(s.subrange(0, s.len() as int) =~= s);
        s.len() as int
    }
}

/// A literal argument is emitted as its source text, trimmed of surrounding whitespace.
pub proof fn lemma_literal_round_trip(e: Expr)
    requires
        e.span.snippet is Some,
    ensures
        arg_text(ArgModel::Literal(e)) == Ok::<Seq<char>, RewriteError>(
            trimmed(e.span.snippet->Some_0@),
        ),
{
}

/// A response builder whose kind is none of the known ones, or that sets no kind at all,
/// becomes a channel message carrying the response data.
pub proof fn lemma_unknown_kind_is_message(c: ClosureModel)
    requires
        c.builder_type == "CreateInteractionResponse"@,
        kind_name(c.chain.calls) != "Pong"@,
        kind_name(c.chain.calls) != "DeferredChannelMessageWithSource"@,
        kind_name(c.chain.calls) != "DeferredUpdateMessage"@,
        kind_name(c.chain.calls) != "UpdateMessage"@,
        kind_name(c.chain.calls) != "Autocomplete"@,
        kind_name(c.chain.calls) != "Modal"@,
    ensures
        closure_text(c) == (match payload_text(c.chain.calls) {
            Ok(t) => Ok(
                "CreateInteractionResponse::"@ + "Message"@ + "("@
                    + "CreateInteractionResponseMessage"@ + "::new()"@ + t + ")"@,
            ),
            Err(e) => Err(e),
        }),
{
    reveal(response_shape);
}

} // verus!
