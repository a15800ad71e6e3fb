//! Turns the structures of `structures` into the newer builder syntax.
//!
//! The specification functions below say what text each structure becomes; a structure that
//! a specialized builder does not expect gives a `RewriteError` instead, and is left as it is.

use vstd::prelude::*;
use vstd::string::*;
use crate::nodes::{Expr, ExprKind};
use crate::structures::{
    args_view, arg_view, call_view, calls_view, chain_view, closure_view, stmt_view, stmts_view,
    ArgModel, BuilderCall, BuilderCallArg, BuilderCallChain, BuilderClosure, CallModel,
    ChainModel, ClosureModel, PreBuilderCallStatement, StmtModel,
};
use crate::rules::{is_listed, required_fields, required_fields_of, response_shape, response_shape_of};
use crate::text::{
    join, placeholder, snippet_or, source_text, text_eq, verbatim_or_empty, verbatim_source,
};

verus! {

broadcast use vstd::std_specs::vec::group_vec_axioms;

/// Why a recognized builder could not be rewritten.
#[derive(Clone, Copy, Debug, PartialEq, Eq, Structural)]
pub enum RewriteError {
    /// A call whose name the builder does not have.
    UnexpectedCall,
    /// A call without an argument of the expected shape.
    UnexpectedArgument,
    /// A call the builder needs is absent.
    MissingField,
    /// Input-text components are not rewritten.
    UnsupportedInputText,
    /// The response data closure has statements before its calls.
    PayloadPrelude,
    /// An action row without buttons or select menu.
    EmptyRow,
}

pub open spec fn text_view(r: Result<String, RewriteError>) -> Result<Seq<char>, RewriteError> {
    match r {
        Ok(s) => Ok(s@),
        Err(e) => Err(e),
    }
}

/// `acc` and `err`, the state of a loop, stand for `r`.
pub open spec fn agrees(err: Option<RewriteError>, acc: Seq<char>, r: Result<
    Seq<char>,
    RewriteError,
>) -> bool {
    match err {
        Some(e) => r == Err::<Seq<char>, RewriteError>(e),
        None => r == Ok::<Seq<char>, RewriteError>(acc),
    }
}

pub open spec fn parts_agree(err: Option<RewriteError>, acc: Seq<String>, r: Result<
    Seq<Seq<char>>,
    RewriteError,
>) -> bool {
    match err {
        Some(e) => r == Err::<Seq<Seq<char>>, RewriteError>(e),
        None => r == Ok::<Seq<Seq<char>>, RewriteError>(acc.map_values(|s: String| s@)),
    }
}

/// The source text of a literal argument.
pub open spec fn literal_text(e: Expr) -> Seq<char> {
    snippet_or(e.span, placeholder())
}

/// `.field(args)`
pub open spec fn setter(field: Seq<char>, args: Seq<char>) -> Seq<char> {
    "."@ + field + "("@ + args + ")"@
}

pub open spec fn arg_text(a: ArgModel) -> Result<Seq<char>, RewriteError>
    decreases a, 0int,
{
    match a {
        ArgModel::Literal(e) => Ok(literal_text(e)),
        ArgModel::Nested(c) => closure_text(c),
    }
}

/// The arguments' texts, separated by `, `.
pub open spec fn args_text(s: Seq<ArgModel>) -> Result<Seq<char>, RewriteError>
    decreases s, 0int,
{
    if s.len() == 0 {
        Ok(seq![])
    } else {
        match args_text(s.drop_last()) {
            Err(e) => Err(e),
            Ok(t) => match arg_text(s.last()) {
                Err(e) => Err(e),
                Ok(u) => Ok(
                    if s.len() == 1 {
                        u
                    } else {
                        t + ", "@ + u
                    },
                ),
            },
        }
    }
}

/// One setter per call, in order.
pub open spec fn setters_text(s: Seq<CallModel>) -> Result<Seq<char>, RewriteError>
    decreases s, 0int,
{
    if s.len() == 0 {
        Ok(seq![])
    } else {
        match setters_text(s.drop_last()) {
            Err(e) => Err(e),
            Ok(t) => match args_text(s.last().args) {
                Err(e) => Err(e),
                Ok(a) => Ok(t + setter(s.last().field, a)),
            },
        }
    }
}

/// `b = b.call1(..).call2(..);`
pub open spec fn chain_stmt_text(ch: ChainModel) -> Result<Seq<char>, RewriteError>
    decreases ch, 1int,
{
    match setters_text(ch.calls) {
        Err(e) => Err(e),
        Ok(t) => Ok(ch.receiver + " = "@ + ch.receiver + t + ";"@),
    }
}

/// Each statement on a line of its own: verbatim ones exactly as they stand (empty where
/// their text cannot be recovered), chained ones as assignments.
pub open spec fn prelude_text(s: Seq<StmtModel>) -> Result<Seq<char>, RewriteError>
    decreases s, 0int,
{
    if s.len() == 0 {
        Ok(seq![])
    } else {
        match prelude_text(s.drop_last()) {
            Err(e) => Err(e),
            Ok(t) => match s.last() {
                StmtModel::Verbatim(sp) => Ok(t + verbatim_or_empty(sp) + "\n"@),
                StmtModel::Chained(ch) => match chain_stmt_text(ch) {
                    Err(e) => Err(e),
                    Ok(u) => Ok(t + u + "\n"@),
                },
            },
        }
    }
}

/// The argument texts of the calls named `f`, in call order.
pub open spec fn named_parts(s: Seq<CallModel>, f: Seq<char>) -> Result<
    Seq<Seq<char>>,
    RewriteError,
>
    decreases s, 0int,
{
    if s.len() == 0 {
        Ok(seq![])
    } else {
        match named_parts(s.drop_last(), f) {
            Err(e) => Err(e),
            Ok(p) => if s.last().field == f {
                match args_text(s.last().args) {
                    Err(e) => Err(e),
                    Ok(a) => Ok(p.push(a)),
                }
            } else {
                Ok(p)
            },
        }
    }
}

/// The constructor arguments: for each required field in the table's order, the arguments
/// of the calls that set it.
pub open spec fn required_parts(s: Seq<CallModel>, fields: Seq<&'static str>) -> Result<
    Seq<Seq<char>>,
    RewriteError,
>
    decreases s, fields.len(),
{
    if fields.len() == 0 {
        Ok(seq![])
    } else {
        match required_parts(s, fields.drop_last()) {
            Err(e) => Err(e),
            Ok(p) => match named_parts(s, fields.last()@) {
                Err(e) => Err(e),
                Ok(q) => Ok(p + q),
            },
        }
    }
}

/// A setter for every call that sets no required field, in call order.
pub open spec fn optional_text(s: Seq<CallModel>, fields: Seq<&'static str>) -> Result<
    Seq<char>,
    RewriteError,
>
    decreases s, 0int,
{
    if s.len() == 0 {
        Ok(seq![])
    } else {
        match optional_text(s.drop_last(), fields) {
            Err(e) => Err(e),
            Ok(t) => if is_listed(fields, s.last().field) {
                Ok(t)
            } else {
                match args_text(s.last().args) {
                    Err(e) => Err(e),
                    Ok(a) => Ok(t + setter(s.last().field, a)),
                }
            },
        }
    }
}

/// `Type::new(required..)` then the setters; with a prelude, a block that declares the
/// binding, replays the prelude and yields the binding with the setters.
pub open spec fn generic_text(c: ClosureModel) -> Result<Seq<char>, RewriteError>
    decreases c, 1int,
{
    let fields = required_fields(c.builder_type);
    match required_parts(c.chain.calls, fields) {
        Err(e) => Err(e),
        Ok(req) => match optional_text(c.chain.calls, fields) {
            Err(e) => Err(e),
            Ok(opt) => {
                let new = c.builder_type + "::new("@ + join(req, ", "@) + ")"@;
                if c.stmts.len() == 0 {
                    Ok(new + opt)
                } else {
                    match prelude_text(c.stmts) {
                        Err(e) => Err(e),
                        Ok(pre) => Ok(
                            "{\nlet mut "@ + c.binding + " = "@ + new + ";\n"@ + pre + c.binding
                                + opt + "\n}"@,
                        ),
                    }
                }
            },
        },
    }
}

/// Whether some call in `s` is named `name`.
pub open spec fn has_named(s: Seq<CallModel>, name: Seq<char>) -> bool {
    exists|i: int| 0 <= i < s.len() && (#[trigger] s[i]).field == name
}

/// `i` is the first call in `s` named `name`.
pub open spec fn is_first_named(s: Seq<CallModel>, name: Seq<char>, i: int) -> bool {
    &&& 0 <= i < s.len()
    &&& s[i].field == name
    &&& forall|j: int| 0 <= j < i ==> (#[trigger] s[j]).field != name
}

/// The last segment of a resolved path expression with at least one segment.
pub open spec fn path_tail(e: Expr) -> Option<Seq<char>> {
    match e.kind {
        ExprKind::Path(q) => if q.resolved && q.segments@.len() > 0 {
            Some(q.segments@.last()@)
        } else {
            None
        },
        _ => None,
    }
}

/// The last segment of a plain path expression; empty for any other expression.
pub open spec fn last_segment(e: Expr) -> Seq<char> {
    match path_tail(e) {
        Some(s) => s,
        None => ""@,
    }
}

/// The old response kind: the last path segment of the single literal argument of the
/// first call named `kind`; empty where there is none.
pub open spec fn kind_name(s: Seq<CallModel>) -> Seq<char> {
    if has_named(s, "kind"@) {
        let call = s[choose|i: int| is_first_named(s, "kind"@, i)];
        if call.args.len() == 1 && call.args[0] is Literal {
            last_segment(call.args[0]->Literal_0)
        } else {
            ""@
        }
    } else {
        ""@
    }
}

/// The setters of the response data: those of the closure handed to the first call named
/// `interaction_response_data`, which must hold no statement before its calls.
pub open spec fn payload_text(s: Seq<CallModel>) -> Result<Seq<char>, RewriteError>
    decreases s, 0int,
{
    if s.len() == 0 {
        Ok(seq![])
    } else if has_named(s.drop_last(), "interaction_response_data"@) {
        payload_text(s.drop_last())
    } else if s.last().field == "interaction_response_data"@ {
        data_text(s.last())
    } else {
        Ok(seq![])
    }
}

pub open spec fn data_text(call: CallModel) -> Result<Seq<char>, RewriteError>
    decreases call, 0int,
{
    if call.args.len() > 0 && call.args[0] is Nested {
        if call.args[0]->Nested_0.stmts.len() > 0 {
            Err(RewriteError::PayloadPrelude)
        } else {
            setters_text(call.args[0]->Nested_0.chain.calls)
        }
    } else {
        Ok(seq![])
    }
}

/// `CreateInteractionResponse::Variant`, or `CreateInteractionResponse::Variant(Payload::new()`
/// with the data's setters and `)`. A data closure with statements before its calls is
/// refused whatever the kind.
pub open spec fn response_text(c: ClosureModel) -> Result<Seq<char>, RewriteError>
    decreases c, 1int,
{
    let shape = response_shape(kind_name(c.chain.calls));
    let head = "CreateInteractionResponse::"@ + shape.0@;
    match payload_text(c.chain.calls) {
        Err(e) => Err(e),
        Ok(t) => match shape.1 {
            None => Ok(head),
            Some(p) => Ok(head + "("@ + p@ + "::new()"@ + t + ")"@),
        },
    }
}

pub struct ButtonState {
    pub url: Option<Seq<char>>,
    pub id: Option<Seq<char>>,
    pub setters: Seq<char>,
}

/// Every call of a button takes one literal: `url` and `custom_id` are kept aside, any other
/// becomes a setter.
#[verifier::opaque]
pub open spec fn button_step(st: ButtonState, call: CallModel) -> Result<ButtonState, RewriteError> {
    if call.args.len() > 0 && call.args[0] is Literal {
        let v = literal_text(call.args[0]->Literal_0);
        if call.field == "url"@ {
            Ok(ButtonState { url: Some(v), id: st.id, setters: st.setters })
        } else if call.field == "custom_id"@ {
            Ok(ButtonState { url: st.url, id: Some(v), setters: st.setters })
        } else {
            Ok(ButtonState { url: st.url, id: st.id, setters: st.setters + setter(call.field, v) })
        }
    } else {
        Err(RewriteError::UnexpectedArgument)
    }
}

pub open spec fn button_fold(s: Seq<CallModel>) -> Result<ButtonState, RewriteError>
    decreases s.len(),
{
    if s.len() == 0 {
        Ok(ButtonState { url: None, id: None, setters: seq![] })
    } else {
        match button_fold(s.drop_last()) {
            Err(e) => Err(e),
            Ok(st) => button_step(st, s.last()),
        }
    }
}

/// A link button where a `url` is set, else a button made from its `custom_id`.
pub open spec fn button_text(b: ClosureModel) -> Result<Seq<char>, RewriteError> {
    match button_fold(b.chain.calls) {
        Err(e) => Err(e),
        Ok(st) => match st.url {
            Some(u) => Ok("CreateButton::new_link("@ + u + ")"@ + st.setters),
            None => match st.id {
                Some(i) => Ok("CreateButton::new("@ + i + ")"@ + st.setters),
                None => Err(RewriteError::MissingField),
            },
        },
    }
}

/// Each option of a select menu, made by the generic strategy, separated by `, `.
#[verifier::opaque]
pub open spec fn options_text(s: Seq<CallModel>) -> Result<Seq<char>, RewriteError>
    decreases s, 0int,
{
    if s.len() == 0 {
        Ok(seq![])
    } else {
        match options_text(s.drop_last()) {
            Err(e) => Err(e),
            Ok(t) => if s.last().field != "create_option"@ {
                Err(RewriteError::UnexpectedCall)
            } else if s.last().args.len() > 0 && s.last().args[0] is Nested {
                match generic_text(s.last().args[0]->Nested_0) {
                    Err(e) => Err(e),
                    Ok(u) => Ok(
                        if s.len() == 1 {
                            u
                        } else {
                            t + ", "@ + u
                        },
                    ),
                }
            } else {
                Err(RewriteError::UnexpectedArgument)
            },
        }
    }
}

pub struct SelectState {
    pub id: Option<Seq<char>>,
    pub options: Option<Seq<char>>,
    pub setters: Seq<char>,
}

/// The options of a select menu's `options` call, separated by `, `.
pub open spec fn options_arg_text(call: CallModel) -> Result<Seq<char>, RewriteError>
    decreases call, 0int,
{
    if call.args.len() > 0 && call.args[0] is Nested {
        options_text(call.args[0]->Nested_0.chain.calls)
    } else {
        Err(RewriteError::UnexpectedArgument)
    }
}

#[verifier::opaque]
pub open spec fn select_step(st: SelectState, call: CallModel) -> Result<SelectState, RewriteError>
    decreases call, 1int,
{
    if call.field == "options"@ {
        match options_arg_text(call) {
            Err(e) => Err(e),
            Ok(o) => Ok(SelectState { id: st.id, options: Some(o), setters: st.setters }),
        }
    } else if call.args.len() > 0 && call.args[0] is Literal {
        let v = literal_text(call.args[0]->Literal_0);
        if call.field == "custom_id"@ {
            Ok(SelectState { id: Some(v), options: st.options, setters: st.setters })
        } else {
            Ok(
                SelectState {
                    id: st.id,
                    options: st.options,
                    setters: st.setters + setter(call.field, v),
                },
            )
        }
    } else {
        Err(RewriteError::UnexpectedArgument)
    }
}

pub open spec fn select_fold(s: Seq<CallModel>) -> Result<SelectState, RewriteError>
    decreases s, 0int,
{
    if s.len() == 0 {
        Ok(SelectState { id: None, options: None, setters: seq![] })
    } else {
        match select_fold(s.drop_last()) {
            Err(e) => Err(e),
            Ok(st) => select_step(st, s.last()),
        }
    }
}

/// A string select menu made from its `custom_id` and its options, then its setters.
#[verifier::opaque]
pub open spec fn select_text(c: ClosureModel) -> Result<Seq<char>, RewriteError>
    decreases c, 1int,
{
    match select_fold(c.chain.calls) {
        Err(e) => Err(e),
        Ok(st) => match (st.id, st.options) {
            (Some(i), Some(o)) => Ok(
                "CreateSelectMenu::new("@ + i + ", CreateSelectMenuKind::String { options: vec!["@
                    + o + "] })"@ + st.setters,
            ),
            _ => Err(RewriteError::MissingField),
        },
    }
}

pub struct RowState {
    pub buttons: Seq<Seq<char>>,
    pub select: Option<Seq<char>>,
}

/// One component of an action row: a button or a select menu, built or given.
#[verifier::opaque]
pub open spec fn item_step(st: RowState, item: CallModel) -> Result<RowState, RewriteError>
    decreases item, 0int,
{
    let f = item.field;
    let nested = item.args.len() > 0 && item.args[0] is Nested;
    let literal = item.args.len() > 0 && item.args[0] is Literal;
    if f == "create_button"@ {
        if nested {
            match button_text(item.args[0]->Nested_0) {
                Err(e) => Err(e),
                Ok(t) => Ok(RowState { buttons: st.buttons.push(t), select: st.select }),
            }
        } else {
            Err(RewriteError::UnexpectedArgument)
        }
    } else if f == "add_button"@ {
        if literal {
            Ok(
                RowState {
                    buttons: st.buttons.push(literal_text(item.args[0]->Literal_0)),
                    select: st.select,
                },
            )
        } else {
            Err(RewriteError::UnexpectedArgument)
        }
    } else if f == "create_select_menu"@ {
        if nested {
            match select_text(item.args[0]->Nested_0) {
                Err(e) => Err(e),
                Ok(t) => Ok(RowState { buttons: st.buttons, select: Some(t) }),
            }
        } else {
            Err(RewriteError::UnexpectedArgument)
        }
    } else if f == "add_select_menu"@ {
        if literal {
            Ok(RowState { buttons: st.buttons, select: Some(literal_text(item.args[0]->Literal_0)) })
        } else {
            Err(RewriteError::UnexpectedArgument)
        }
    } else if f == "create_input_text"@ || f == "add_input_text"@ {
        Err(RewriteError::UnsupportedInputText)
    } else {
        Err(RewriteError::UnexpectedCall)
    }
}

pub open spec fn row_fold(s: Seq<CallModel>) -> Result<RowState, RewriteError>
    decreases s, 0int,
{
    if s.len() == 0 {
        Ok(RowState { buttons: seq![], select: None })
    } else {
        match row_fold(s.drop_last()) {
            Err(e) => Err(e),
            Ok(st) => item_step(st, s.last()),
        }
    }
}

/// `create_action_row(|r| ..)`: a row of buttons if there is any, else of its select menu.
#[verifier::opaque]
pub open spec fn row_text(call: CallModel) -> Result<Seq<char>, RewriteError>
    decreases call, 0int,
{
    if call.field != "create_action_row"@ {
        Err(RewriteError::UnexpectedCall)
    } else if !(call.args.len() > 0 && call.args[0] is Nested) {
        Err(RewriteError::UnexpectedArgument)
    } else {
        match row_fold(call.args[0]->Nested_0.chain.calls) {
            Err(e) => Err(e),
            Ok(st) => if st.buttons.len() > 0 {
                Ok("CreateActionRow::Buttons(vec!["@ + join(st.buttons, ", "@) + "])"@)
            } else {
                match st.select {
                    Some(m) => Ok("CreateActionRow::SelectMenu("@ + m + ")"@),
                    None => Err(RewriteError::EmptyRow),
                }
            },
        }
    }
}

pub open spec fn rows_parts(s: Seq<CallModel>) -> Result<Seq<Seq<char>>, RewriteError>
    decreases s, 0int,
{
    if s.len() == 0 {
        Ok(seq![])
    } else {
        match rows_parts(s.drop_last()) {
            Err(e) => Err(e),
            Ok(p) => match row_text(s.last()) {
                Err(e) => Err(e),
                Ok(t) => Ok(p.push(t)),
            },
        }
    }
}

/// A list of action rows.
pub open spec fn components_text(c: ClosureModel) -> Result<Seq<char>, RewriteError>
    decreases c, 1int,
{
    match rows_parts(c.chain.calls) {
        Err(e) => Err(e),
        Ok(rows) => Ok("vec!["@ + join(rows, ", "@) + "]"@),
    }
}

/// The replacement text of a builder closure.
pub open spec fn closure_text(c: ClosureModel) -> Result<Seq<char>, RewriteError>
    decreases c, 2int,
{
    if c.builder_type == "CreateInteractionResponse"@ {
        response_text(c)
    } else if c.builder_type == "CreateComponents"@ {
        components_text(c)
    } else {
        generic_text(c)
    }
}

/// The source text of a literal argument.
fn literal_string(e: &Expr) -> (r: String)
    ensures
        r@ == literal_text(*e),
{
    source_text(&e.span, "todo!()")
}

/// `parts` joined by `sep`.
pub fn join_strings(parts: &Vec<String>, sep: &str) -> (r: String)
    ensures
        r@ == join(parts@.map_values(|s: String| s@), sep@),
{
    let ghost v = parts@.map_values(|s: String| s@);
    let mut out = String::new();
    let mut i: usize = 0;
    while i < parts.len()
        invariant
            i <= parts.len(),
            v == parts@.map_values(|s: String| s@),
            out@ == join(v.take(i as int), sep@),
        decreases parts.len() - i,
    {
        proof {
            assert(v.take(i + 1).drop_last() =~= v.take(i as int));
            assert(v.take(i + 1).last() == parts@[i as int]@);
        }
        if i > 0 {
            out.append(sep);
        }
        out.append(parts[i].as_str());
        proof {
            if i == 0 {
                assert(out@ =~= join(v.take(1), sep@));
            }
        }
        i += 1;
    }
    assert(v.take(parts.len() as int) =~= v);
    out
}

proof fn lemma_args_prefix(s: Seq<BuilderCallArg>, i: int)
    requires
        0 <= i < s.len(),
    ensures
        args_view(s.take(i + 1)) == args_view(s.take(i)).push(arg_view(s[i])),
        args_view(s.take(i + 1)).drop_last() == args_view(s.take(i)),
        args_view(s.take(i + 1)).last() == arg_view(s[i]),
        args_view(s.take(i + 1)).len() == i + 1,
{
    assert(s.take(i + 1).drop_last() =~= s.take(i));
    lemma_args_len(s.take(i));
}

proof fn lemma_args_len(s: Seq<BuilderCallArg>)
    ensures
        args_view(s).len() == s.len(),
    decreases s.len(),
{
    if s.len() > 0 {
        lemma_args_len(s.drop_last());
    }
}

proof fn lemma_calls_prefix(s: Seq<BuilderCall>, i: int)
    requires
        0 <= i < s.len(),
    ensures
        calls_view(s.take(i + 1)) == calls_view(s.take(i)).push(call_view(s[i])),
        calls_view(s.take(i + 1)).drop_last() == calls_view(s.take(i)),
        calls_view(s.take(i + 1)).last() == call_view(s[i]),
{
    assert(s.take(i + 1).drop_last() =~= s.take(i));
}

proof fn lemma_stmts_prefix(s: Seq<PreBuilderCallStatement>, i: int)
    requires
        0 <= i < s.len(),
    ensures
        stmts_view(s.take(i + 1)).drop_last() == stmts_view(s.take(i)),
        stmts_view(s.take(i + 1)).last() == stmt_view(s[i]),
        stmts_view(s.take(i + 1)).len() > 0,
{
    assert(s.take(i + 1).drop_last() =~= s.take(i));
}

proof fn lemma_stmts_len(s: Seq<PreBuilderCallStatement>)
    ensures
        stmts_view(s).len() == s.len(),
    decreases s.len(),
{
    if s.len() > 0 {
        lemma_stmts_len(s.drop_last());
    }
}

/// The arguments' texts, separated by `, `.
pub fn field_arg_string(args: &Vec<BuilderCallArg>) -> (r: Result<String, RewriteError>)
    ensures
        text_view(r) == args_text(args_view(args@)),
    decreases args, 0int,
{
    let mut out = String::new();
    let mut err: Option<RewriteError> = None;
    let mut i: usize = 0;
    while i < args.len()
        invariant
            i <= args.len(),
            agrees(err, out@, args_text(args_view(args@.take(i as int)))),
        decreases args.len() - i,
    {
        proof {
            lemma_args_prefix(args@, i as int);
        }
        if err.is_none() {
            let piece = match &args[i] {
                BuilderCallArg::Literal(e) => Ok(literal_string(e)),
                BuilderCallArg::NestedClosure(c) => {
                    proof {
                        assert(decreases_to!(*args => args@));
                        assert(decreases_to!(args@ => args@[i as int]));
                        assert(decreases_to!(args@[i as int] => args@[i as int]->NestedClosure_0));
                    }
                    replace_closure(c)
                },
            };
            let ghost before = out@;
            assert(text_view(piece) == arg_text(arg_view(args@[i as int])));
            match piece {
                Ok(u) => {
                    if i > 0 {
                        out.append(", ");
                    }
                    out.append(u.as_str());
                    proof {
                        if i > 0 {
                            assert(out@ =~= before + ", "@ + u@);
                        } else {
                            assert(out@ =~= u@);
                        }
                    }
                },
                Err(e) => {
                    err = Some(e);
                },
            }
        }
        i += 1;
    }
    assert(args@.take(args.len() as int) =~= args@);
    out_result(err, out)
}

fn out_result(err: Option<RewriteError>, out: String) -> (r: Result<String, RewriteError>)
    ensures
        match err {
            Some(e) => r == Err::<String, RewriteError>(e),
            None => r == Ok::<String, RewriteError>(out),
        },
{
    match err {
        Some(e) => Err(e),
        None => Ok(out),
    }
}

/// One setter per call, in order.
fn setters_string(calls: &Vec<BuilderCall>) -> (r: Result<String, RewriteError>)
    ensures
        text_view(r) == setters_text(calls_view(calls@)),
    decreases calls, 0int,
{
    let mut out = String::new();
    let mut err: Option<RewriteError> = None;
    let mut i: usize = 0;
    while i < calls.len()
        invariant
            i <= calls.len(),
            agrees(err, out@, setters_text(calls_view(calls@.take(i as int)))),
        decreases calls.len() - i,
    {
        proof {
            lemma_calls_prefix(calls@, i as int);
        }
        if err.is_none() {
            proof {
                assert(decreases_to!(*calls => calls@));
                assert(decreases_to!(calls@ => calls@[i as int]));
                assert(decreases_to!(calls@[i as int] => calls@[i as int].args));
            }
            match field_arg_string(&calls[i].args) {
                Ok(a) => {
                    let ghost before = out@;
                    out.append(".");
                    out.append(calls[i].field.as_str());
                    out.append("(");
                    out.append(a.as_str());
                    out.append(")");
                    assert(out@ =~= before + setter(calls@[i as int].field@, a@));
                },
                Err(e) => {
                    err = Some(e);
                },
            }
        }
        i += 1;
    }
    assert(calls@.take(calls.len() as int) =~= calls@);
    out_result(err, out)
}

/// `b = b.call1(..).call2(..);`
pub fn replace_builder_call_chain_stmt(call_chain: &BuilderCallChain) -> (r: Result<
    String,
    RewriteError,
>)
    ensures
        text_view(r) == chain_stmt_text(chain_view(*call_chain)),
    decreases call_chain, 1int,
{
    match setters_string(&call_chain.calls) {
        Ok(t) => {
            let mut line = call_chain.receiver.clone();
            line.append(" = ");
            line.append(call_chain.receiver.as_str());
            line.append(t.as_str());
            line.append(";");
            Ok(line)
        },
        Err(e) => Err(e),
    }
}

/// The prelude, one statement per line.
fn prelude_string(stmts: &Vec<PreBuilderCallStatement>) -> (r: Result<String, RewriteError>)
    ensures
        text_view(r) == prelude_text(stmts_view(stmts@)),
    decreases stmts, 0int,
{
    let mut out = String::new();
    let mut err: Option<RewriteError> = None;
    let mut i: usize = 0;
    while i < stmts.len()
        invariant
            i <= stmts.len(),
            agrees(err, out@, prelude_text(stmts_view(stmts@.take(i as int)))),
        decreases stmts.len() - i,
    {
        proof {
            lemma_stmts_prefix(stmts@, i as int);
        }
        if err.is_none() {
            match &stmts[i] {
                PreBuilderCallStatement::Verbatim(sp) => {
                    let ghost before = out@;
                    let line = verbatim_source(sp);
                    out.append(line.as_str());
                    out.append("\n");
                    assert(out@ =~= before + line@ + "\n"@);
                },
                PreBuilderCallStatement::BuilderCallChain(ch) => {
                    proof {
                        assert(decreases_to!(*stmts => stmts@));
                        assert(decreases_to!(stmts@ => stmts@[i as int]));
                        assert(decreases_to!(stmts@[i as int] => stmts@[i as int]->BuilderCallChain_0));
                    }
                    match replace_builder_call_chain_stmt(ch) {
                        Ok(u) => {
                            let ghost before = out@;
                            out.append(u.as_str());
                            out.append("\n");
                            assert(out@ =~= before + u@ + "\n"@);
                        },
                        Err(e) => {
                            err = Some(e);
                        },
                    }
                },
            }
        }
        i += 1;
    }
    assert(stmts@.take(stmts.len() as int) =~= stmts@);
    out_result(err, out)
}

/// Whether `field` is one of `fields`.
fn listed(fields: &Vec<&'static str>, field: &str) -> (r: bool)
    ensures
        r == is_listed(fields@, field@),
{
    let mut j: usize = 0;
    while j < fields.len()
        invariant
            j <= fields.len(),
            forall|k: int| 0 <= k < j ==> (#[trigger] fields@[k])@ != field@,
        decreases fields.len() - j,
    {
        if text_eq(fields[j], field) {
            proof {
                reveal(is_listed);
                assert(fields@[j as int]@ == field@);
            }
            return true;
        }
        j += 1;
    }
    proof {
        reveal(is_listed);
    }
    false
}

/// The argument texts of the calls named `f`, in call order, pushed onto `out`.
fn named_strings(calls: &Vec<BuilderCall>, f: &str, out: &mut Vec<String>) -> (r: Option<
    RewriteError,
>)
    ensures
        match named_parts(calls_view(calls@), f@) {
            Ok(q) => r is None && final(out)@.map_values(|s: String| s@) == old(out)@.map_values(
                |s: String| s@,
            ) + q,
            Err(e) => r == Some(e),
        },
    decreases calls, 0int,
{
    let ghost start = out@.map_values(|s: String| s@);
    let mut err: Option<RewriteError> = None;
    let mut i: usize = 0;
    while i < calls.len()
        invariant
            i <= calls.len(),
            match named_parts(calls_view(calls@.take(i as int)), f@) {
                Ok(q) => err is None && out@.map_values(|s: String| s@) == start + q,
                Err(e) => err == Some(e),
            },
        decreases calls.len() - i,
    {
        proof {
            lemma_calls_prefix(calls@, i as int);
        }
        if err.is_none() && text_eq(calls[i].field.as_str(), f) {
            proof {
                assert(decreases_to!(*calls => calls@));
                assert(decreases_to!(calls@ => calls@[i as int]));
                assert(decreases_to!(calls@[i as int] => calls@[i as int].args));
            }
            match field_arg_string(&calls[i].args) {
                Ok(a) => {
                    let ghost before = out@;
                    out.push(a);
                    proof {
                        assert(out@.map_values(|s: String| s@) =~= before.map_values(
                            |s: String| s@,
                        ).push(out@.last()@));
                        let q = named_parts(calls_view(calls@.take(i as int)), f@)->Ok_0;
                        assert(start + q.push(out@.last()@) =~= (start + q).push(out@.last()@));
                    }
                },
                Err(e) => {
                    err = Some(e);
                },
            }
        }
        i += 1;
    }
    assert(calls@.take(calls.len() as int) =~= calls@);
    err
}

/// The constructor arguments, field by field in the table's order.
fn required_strings(calls: &Vec<BuilderCall>, fields: &Vec<&'static str>) -> (r: Result<
    Vec<String>,
    RewriteError,
>)
    ensures
        match required_parts(calls_view(calls@), fields@) {
            Ok(q) => r is Ok && r->Ok_0@.map_values(|s: String| s@) == q,
            Err(e) => r == Err::<Vec<String>, RewriteError>(e),
        },
    decreases calls, 1int,
{
    let mut out: Vec<String> = Vec::new();
    let mut j: usize = 0;
    assert(out@.map_values(|s: String| s@) =~= seq![]);
    while j < fields.len()
        invariant
            j <= fields.len(),
            required_parts(calls_view(calls@), fields@.take(j as int)) is Ok,
            out@.map_values(|s: String| s@) == required_parts(
                calls_view(calls@),
                fields@.take(j as int),
            )->Ok_0,
        decreases fields.len() - j,
    {
        proof {
            assert(fields@.take(j + 1).drop_last() =~= fields@.take(j as int));
        }
        match named_strings(calls, fields[j], &mut out) {
            Some(e) => {
                proof {
                    assert(required_parts(calls_view(calls@), fields@.take(j + 1)) == Err::<
                        Seq<Seq<char>>,
                        RewriteError,
                    >(e));
                    lemma_required_err(calls_view(calls@), fields@, j as int + 1, e);
                }
                return Err(e);
            },
            None => {},
        }
        j += 1;
    }
    assert(fields@.take(fields.len() as int) =~= fields@);
    Ok(out)
}

proof fn lemma_required_err(s: Seq<CallModel>, fields: Seq<&'static str>, k: int, e: RewriteError)
    requires
        0 <= k <= fields.len(),
        required_parts(s, fields.take(k)) == Err::<Seq<Seq<char>>, RewriteError>(e),
    ensures
        required_parts(s, fields) == Err::<Seq<Seq<char>>, RewriteError>(e),
    decreases fields.len() - k,
{
    if k == fields.len() {
        assert(fields.take(k) =~= fields);
    } else {
        assert(fields.take(k + 1).drop_last() =~= fields.take(k));
        lemma_required_err(s, fields, k + 1, e);
    }
}

/// A setter for every call that sets no required field, in call order.
fn optional_string(calls: &Vec<BuilderCall>, fields: &Vec<&'static str>) -> (r: Result<
    String,
    RewriteError,
>)
    ensures
        text_view(r) == optional_text(calls_view(calls@), fields@),
    decreases calls, 0int,
{
    let mut out = String::new();
    let mut err: Option<RewriteError> = None;
    let mut i: usize = 0;
    while i < calls.len()
        invariant
            i <= calls.len(),
            agrees(err, out@, optional_text(calls_view(calls@.take(i as int)), fields@)),
        decreases calls.len() - i,
    {
        proof {
            lemma_calls_prefix(calls@, i as int);
        }
        if err.is_none() && !listed(fields, calls[i].field.as_str()) {
            proof {
                assert(decreases_to!(*calls => calls@));
                assert(decreases_to!(calls@ => calls@[i as int]));
                assert(decreases_to!(calls@[i as int] => calls@[i as int].args));
            }
            match field_arg_string(&calls[i].args) {
                Ok(a) => {
                    let ghost before = out@;
                    out.append(".");
                    out.append(calls[i].field.as_str());
                    out.append("(");
                    out.append(a.as_str());
                    out.append(")");
                    assert(out@ =~= before + setter(calls@[i as int].field@, a@));
                },
                Err(e) => {
                    err = Some(e);
                },
            }
        }
        i += 1;
    }
    assert(calls@.take(calls.len() as int) =~= calls@);
    out_result(err, out)
}

/// `Type::new(required..)` followed by the setters, with the prelude in a block if any.
fn replace_generic(closure: &BuilderClosure) -> (r: Result<String, RewriteError>)
    ensures
        text_view(r) == generic_text(closure_view(*closure)),
    decreases closure, 1int,
{
    let fields = required_fields_of(closure.builder_type.as_str());
    proof {
        assert(decreases_to!(*closure => closure.call_chain));
        assert(decreases_to!(closure.call_chain => closure.call_chain.calls));
    }
    let required = match required_strings(&closure.call_chain.calls, &fields) {
        Ok(v) => v,
        Err(e) => return Err(e),
    };
    let optional = match optional_string(&closure.call_chain.calls, &fields) {
        Ok(t) => t,
        Err(e) => return Err(e),
    };
    let mut new = closure.builder_type.clone();
    new.append("::new(");
    new.append(join_strings(&required, ", ").as_str());
    new.append(")");
    proof {
        lemma_stmts_len(closure.stmts@);
    }
    if closure.stmts.len() == 0 {
        new.append(optional.as_str());
        Ok(new)
    } else {
        proof {
            assert(decreases_to!(*closure => closure.stmts));
        }
        let pre = match prelude_string(&closure.stmts) {
            Ok(p) => p,
            Err(e) => return Err(e),
        };
        let mut output = String::new();
        output.append("{\nlet mut ");
        output.append(closure.binding.as_str());
        output.append(" = ");
        output.append(new.as_str());
        output.append(";\n");
        output.append(pre.as_str());
        output.append(closure.binding.as_str());
        output.append(optional.as_str());
        output.append("\n}");
        Ok(output)
    }
}

proof fn lemma_calls_index(s: Seq<BuilderCall>)
    ensures
        calls_view(s).len() == s.len(),
        forall|i: int| 0 <= i < s.len() ==> #[trigger] calls_view(s)[i] == call_view(s[i]),
    decreases s.len(),
{
    if s.len() > 0 {
        lemma_calls_index(s.drop_last());
        assert forall|i: int| 0 <= i < s.len() implies #[trigger] calls_view(s)[i] == call_view(
            s[i],
        ) by {
            if i < s.len() - 1 {
                assert(s.drop_last()[i] == s[i]);
            }
        }
    }
}

proof fn lemma_args_index(s: Seq<BuilderCallArg>)
    ensures
        args_view(s).len() == s.len(),
        forall|i: int| 0 <= i < s.len() ==> #[trigger] args_view(s)[i] == arg_view(s[i]),
    decreases s.len(),
{
    if s.len() > 0 {
        lemma_args_index(s.drop_last());
        assert forall|i: int| 0 <= i < s.len() implies #[trigger] args_view(s)[i] == arg_view(
            s[i],
        ) by {
            if i < s.len() - 1 {
                assert(s.drop_last()[i] == s[i]);
            }
        }
    }
}

/// What the model of `call` holds as its first argument.
proof fn lemma_first_arg(call: BuilderCall)
    ensures
        call_view(call).args.len() == call.args@.len(),
        call.args@.len() > 0 ==> call_view(call).args[0] == arg_view(call.args@[0]),
{
    lemma_args_index(call.args@);
}

proof fn lemma_first_unique(s: Seq<CallModel>, name: Seq<char>, i: int)
    requires
        is_first_named(s, name, i),
    ensures
        has_named(s, name),
        (choose|j: int| is_first_named(s, name, j)) == i,
{
    assert(s[i].field == name);
    let j = choose|j: int| is_first_named(s, name, j);
    assert(is_first_named(s, name, j));
    if j < i {
        assert(s[j].field != name);
    } else if i < j {
        assert(s[i].field != name);
    }
}

proof fn lemma_payload_first(s: Seq<CallModel>, i: int)
    requires
        is_first_named(s, "interaction_response_data"@, i),
    ensures
        payload_text(s) == data_text(s[i]),
    decreases s.len(),
{
    let n = "interaction_response_data"@;
    if i < s.len() - 1 {
        assert(s.drop_last()[i] == s[i]);
        assert(has_named(s.drop_last(), n));
        assert(is_first_named(s.drop_last(), n, i));
        lemma_payload_first(s.drop_last(), i);
    } else {
        if has_named(s.drop_last(), n) {
            let j = choose|j: int| 0 <= j < s.drop_last().len() && (#[trigger] s.drop_last()[j]).field == n;
            assert(s[j].field == n);
        }
    }
}

proof fn lemma_payload_none(s: Seq<CallModel>)
    requires
        !has_named(s, "interaction_response_data"@),
    ensures
        payload_text(s) == Ok::<Seq<char>, RewriteError>(seq![]),
    decreases s.len(),
{
    let n = "interaction_response_data"@;
    if s.len() > 0 {
        if has_named(s.drop_last(), n) {
            let j = choose|j: int| 0 <= j < s.drop_last().len() && (#[trigger] s.drop_last()[j]).field == n;
            assert(s[j].field == n);
        }
        assert(s[s.len() - 1].field != n);
    }
}

/// The index of the first call named `name`.
fn first_named_index(calls: &Vec<BuilderCall>, name: &str) -> (r: Option<usize>)
    ensures
        match r {
            Some(i) => is_first_named(calls_view(calls@), name@, i as int),
            None => !has_named(calls_view(calls@), name@),
        },
{
    proof {
        lemma_calls_index(calls@);
    }
    let mut i: usize = 0;
    while i < calls.len()
        invariant
            i <= calls.len(),
            calls_view(calls@).len() == calls@.len(),
            forall|j: int| 0 <= j < calls@.len() ==> #[trigger] calls_view(calls@)[j] == call_view(
                calls@[j],
            ),
            forall|j: int| 0 <= j < i ==> (#[trigger] calls_view(calls@)[j]).field != name@,
        decreases calls.len() - i,
    {
        assert(calls_view(calls@)[i as int] == call_view(calls@[i as int]));
        if text_eq(calls[i].field.as_str(), name) {
            return Some(i);
        }
        i += 1;
    }
    None
}

/// The last segment of a plain path expression.
fn last_path_segment(e: &Expr) -> (r: Option<&String>)
    ensures
        match r {
            Some(s) => path_tail(*e) == Some(s@),
            None => path_tail(*e) is None,
        },
{
    match &e.kind {
        ExprKind::Path(q) => if q.resolved && q.segments.len() > 0 {
            Some(&q.segments[q.segments.len() - 1])
        } else {
            None
        },
        _ => None,
    }
}

/// The old response kind of a response builder's calls.
fn response_kind<'b>(calls: &'b Vec<BuilderCall>) -> (r: &'b str)
    ensures
        r@ == kind_name(calls_view(calls@)),
{
    match first_named_index(calls, "kind") {
        Some(i) => {
            proof {
                lemma_first_unique(calls_view(calls@), "kind"@, i as int);
                lemma_calls_index(calls@);
                lemma_first_arg(calls@[i as int]);
            }
            let call = &calls[i];
            if call.args.len() == 1 {
                match &call.args[0] {
                    BuilderCallArg::Literal(e) => match last_path_segment(e) {
                        Some(seg) => seg.as_str(),
                        None => "",
                    },
                    _ => "",
                }
            } else {
                ""
            }
        },
        None => "",
    }
}

/// The setters of the response data closure handed to `call`.
fn data_string(call: &BuilderCall) -> (r: Result<String, RewriteError>)
    ensures
        text_view(r) == data_text(call_view(*call)),
    decreases call, 0int,
{
    proof {
        lemma_first_arg(*call);
    }
    if call.args.len() > 0 {
        match &call.args[0] {
            BuilderCallArg::NestedClosure(nc) => {
                proof {
                    lemma_stmts_len(nc.stmts@);
                }
                if nc.stmts.len() > 0 {
                    Err(RewriteError::PayloadPrelude)
                } else {
                    proof {
                        let a = call.args@[0];
                        assert(decreases_to!(*call => call.args));
                        assert(decreases_to!(call.args => call.args@));
                        assert(decreases_to!(call.args@ => a));
                        assert(decreases_to!(a => a->NestedClosure_0));
                        assert(decreases_to!(a->NestedClosure_0 => a->NestedClosure_0.call_chain));
                        assert(decreases_to!(a->NestedClosure_0.call_chain => a->NestedClosure_0.call_chain.calls));
                    }
                    setters_string(&nc.call_chain.calls)
                }
            },
            _ => Ok(String::new()),
        }
    } else {
        Ok(String::new())
    }
}

/// `CreateInteractionResponse::Variant(Payload::new().setters..)`
fn replace_create_interaction_response(closure: &BuilderClosure) -> (r: Result<
    String,
    RewriteError,
>)
    ensures
        text_view(r) == response_text(closure_view(*closure)),
    decreases closure, 1int,
{
    let calls = &closure.call_chain.calls;
    let kind = response_kind(calls);
    let shape = response_shape_of(kind);
    let mut output = String::new();
    output.append("CreateInteractionResponse::");
    output.append(shape.variant);
    let data = match first_named_index(calls, "interaction_response_data") {
        Some(i) => {
            proof {
                lemma_payload_first(calls_view(calls@), i as int);
                lemma_calls_index(calls@);
                assert(decreases_to!(*closure => closure.call_chain));
                assert(decreases_to!(closure.call_chain => closure.call_chain.calls));
                assert(decreases_to!(closure.call_chain.calls => closure.call_chain.calls@));
                assert(decreases_to!(closure.call_chain.calls@ => closure.call_chain.calls@[i as int]));
            }
            data_string(&calls[i])
        },
        None => {
            proof {
                lemma_payload_none(calls_view(calls@));
            }
            Ok(String::new())
        },
    };
    let t = match data {
        Ok(t) => t,
        Err(e) => return Err(e),
    };
    match shape.payload {
        None => Ok(output),
        Some(p) => {
            output.append("(");
            output.append(p);
            output.append("::new()");
            output.append(t.as_str());
            output.append(")");
            Ok(output)
        },
    }
}

pub open spec fn opt_view(o: Option<String>) -> Option<Seq<char>> {
    match o {
        Some(s) => Some(s@),
        None => None,
    }
}

/// `CreateButton::new_link(url)` or `CreateButton::new(custom_id)`, then the setters.
#[verifier::spinoff_prover]
fn replace_button(closure: &BuilderClosure) -> (r: Result<String, RewriteError>)
    ensures
        text_view(r) == button_text(closure_view(*closure)),
{
    proof {
        reveal(button_step);
    }
    let calls = &closure.call_chain.calls;
    let mut url: Option<String> = None;
    let mut custom_id: Option<String> = None;
    let mut setters = String::new();
    let mut err: Option<RewriteError> = None;
    let mut i: usize = 0;
    while i < calls.len()
        invariant
            i <= calls.len(),
            match button_fold(calls_view(calls@.take(i as int))) {
                Ok(st) => err is None && opt_view(url) == st.url && opt_view(custom_id) == st.id
                    && setters@ == st.setters,
                Err(e) => err == Some(e),
            },
        decreases calls.len() - i,
    {
        proof {
            reveal(button_step);
            lemma_calls_prefix(calls@, i as int);
            lemma_first_arg(calls@[i as int]);
        }
        if err.is_none() {
            let call = &calls[i];
            if call.args.len() > 0 && matches!(call.args[0], BuilderCallArg::Literal(_)) {
                let value = match &call.args[0] {
                    BuilderCallArg::Literal(e) => literal_string(e),
                    _ => String::new(),
                };
                if text_eq(call.field.as_str(), "url") {
                    url = Some(value);
                } else if text_eq(call.field.as_str(), "custom_id") {
                    custom_id = Some(value);
                } else {
                    let ghost before = setters@;
                    setters.append(".");
                    setters.append(call.field.as_str());
                    setters.append("(");
                    setters.append(value.as_str());
                    setters.append(")");
                    assert(setters@ =~= before + setter(call.field@, value@));
                }
            } else {
                err = Some(RewriteError::UnexpectedArgument);
            }
        }
        i += 1;
    }
    assert(calls@.take(calls.len() as int) =~= calls@);
    if let Some(e) = err {
        return Err(e);
    }
    let mut output = String::new();
    match url {
        Some(u) => {
            output.append("CreateButton::new_link(");
            output.append(u.as_str());
        },
        None => match custom_id {
            Some(id) => {
                output.append("CreateButton::new(");
                output.append(id.as_str());
            },
            None => return Err(RewriteError::MissingField),
        },
    }
    output.append(")");
    output.append(setters.as_str());
    Ok(output)
}

/// The options of a select menu, each made by the generic strategy, separated by `, `.
fn options_string(calls: &Vec<BuilderCall>) -> (r: Result<String, RewriteError>)
    ensures
        text_view(r) == options_text(calls_view(calls@)),
    decreases calls, 0int,
{
    proof {
        reveal(options_text);
    }
    let mut out = String::new();
    let mut err: Option<RewriteError> = None;
    let mut i: usize = 0;
    while i < calls.len()
        invariant
            i <= calls.len(),
            agrees(err, out@, options_text(calls_view(calls@.take(i as int)))),
        decreases calls.len() - i,
    {
        proof {
            reveal(options_text);
            lemma_calls_prefix(calls@, i as int);
            lemma_first_arg(calls@[i as int]);
            lemma_calls_index(calls@.take(i + 1));
        }
        if err.is_none() {
            let call = &calls[i];
            if !text_eq(call.field.as_str(), "create_option") {
                err = Some(RewriteError::UnexpectedCall);
            } else if call.args.len() > 0 {
                match &call.args[0] {
                    BuilderCallArg::NestedClosure(o) => {
                        proof {
                            let a = call.args@[0];
                            assert(decreases_to!(*calls => calls@));
                            assert(decreases_to!(calls@ => calls@[i as int]));
                            assert(decreases_to!(calls@[i as int] => calls@[i as int].args));
                            assert(decreases_to!(calls@[i as int].args => calls@[i as int].args@));
                            assert(decreases_to!(calls@[i as int].args@ => a));
                            assert(decreases_to!(a => a->NestedClosure_0));
                        }
                        match replace_generic(o) {
                            Ok(u) => {
                                let ghost before = out@;
                                if i > 0 {
                                    out.append(", ");
                                }
                                out.append(u.as_str());
                                proof {
                                    if i > 0 {
                                        assert(out@ =~= before + ", "@ + u@);
                                    } else {
                                        assert(out@ =~= u@);
                                    }
                                }
                            },
                            Err(e) => {
                                err = Some(e);
                            },
                        }
                    },
                    _ => {
                        err = Some(RewriteError::UnexpectedArgument);
                    },
                }
            } else {
                err = Some(RewriteError::UnexpectedArgument);
            }
        }
        i += 1;
    }
    assert(calls@.take(calls.len() as int) =~= calls@);
    out_result(err, out)
}

/// The options of a select menu's `options` call, separated by `, `.
#[verifier::spinoff_prover]
fn options_of(call: &BuilderCall) -> (r: Result<String, RewriteError>)
    ensures
        text_view(r) == options_arg_text(call_view(*call)),
    decreases call, 0int,
{
    proof {
        lemma_first_arg(*call);
    }
    if call.args.len() == 0 {
        return Err(RewriteError::UnexpectedArgument);
    }
    match &call.args[0] {
        BuilderCallArg::NestedClosure(oc) => {
            proof {
                let a = call.args@[0];
                assert(decreases_to!(*call => call.args));
                assert(decreases_to!(call.args => call.args@));
                assert(decreases_to!(call.args@ => a));
                assert(decreases_to!(a => a->NestedClosure_0));
                assert(decreases_to!(a->NestedClosure_0 => a->NestedClosure_0.call_chain));
                assert(decreases_to!(a->NestedClosure_0.call_chain => a->NestedClosure_0.call_chain.calls));
            }
            options_string(&oc.call_chain.calls)
        },
        _ => Err(RewriteError::UnexpectedArgument),
    }
}

/// One call of a select menu, applied to the state kept so far.
#[verifier::spinoff_prover]
fn select_item(
    call: &BuilderCall,
    custom_id: &mut Option<String>,
    options: &mut Option<String>,
    setters: &mut String,
) -> (r: Option<RewriteError>)
    ensures
        match select_step(
            SelectState {
                id: opt_view(*old(custom_id)),
                options: opt_view(*old(options)),
                setters: old(setters)@,
            },
            call_view(*call),
        ) {
            Ok(st) => r is None && opt_view(*final(custom_id)) == st.id && opt_view(*final(options))
                == st.options && final(setters)@ == st.setters,
            Err(e) => r == Some(e),
        },
    decreases call, 1int,
{
    proof {
        reveal(select_step);
    }
    proof {
        lemma_first_arg(*call);
    }
    if text_eq(call.field.as_str(), "options") {
        match options_of(call) {
            Ok(o) => {
                *options = Some(o);
                None
            },
            Err(e) => Some(e),
        }
    } else if call.args.len() > 0 && matches!(call.args[0], BuilderCallArg::Literal(_)) {
        let value = match &call.args[0] {
            BuilderCallArg::Literal(e) => literal_string(e),
            _ => String::new(),
        };
        if text_eq(call.field.as_str(), "custom_id") {
            *custom_id = Some(value);
        } else {
            let ghost before = setters@;
            setters.append(".");
            setters.append(call.field.as_str());
            setters.append("(");
            setters.append(value.as_str());
            setters.append(")");
            assert(setters@ =~= before + setter(call.field@, value@));
        }
        None
    } else {
        Some(RewriteError::UnexpectedArgument)
    }
}

/// `CreateSelectMenu::new(custom_id, CreateSelectMenuKind::String { options: vec![..] })`,
/// then the setters.
#[verifier::spinoff_prover]
fn replace_select_menu(closure: &BuilderClosure) -> (r: Result<String, RewriteError>)
    ensures
        text_view(r) == select_text(closure_view(*closure)),
    decreases closure, 1int,
{
    proof {
        reveal(select_text);
    }
    let calls = &closure.call_chain.calls;
    let mut custom_id: Option<String> = None;
    let mut options: Option<String> = None;
    let mut setters = String::new();
    let mut err: Option<RewriteError> = None;
    let mut i: usize = 0;
    while i < calls.len()
        invariant
            i <= calls.len(),
            calls == &closure.call_chain.calls,
            match select_fold(calls_view(calls@.take(i as int))) {
                Ok(st) => err is None && opt_view(custom_id) == st.id && opt_view(options)
                    == st.options && setters@ == st.setters,
                Err(e) => err == Some(e),
            },
        decreases calls.len() - i,
    {
        proof {
            lemma_calls_prefix(calls@, i as int);
        }
        if err.is_none() {
            proof {
                assert(decreases_to!(*closure => closure.call_chain));
                assert(decreases_to!(closure.call_chain => closure.call_chain.calls));
                assert(decreases_to!(closure.call_chain.calls => calls@));
                assert(decreases_to!(calls@ => calls@[i as int]));
            }
            err = select_item(&calls[i], &mut custom_id, &mut options, &mut setters);
        }
        i += 1;
    }
    assert(calls@.take(calls.len() as int) =~= calls@);
    if let Some(e) = err {
        return Err(e);
    }
    match (custom_id, options) {
        (Some(id), Some(opts)) => {
            let mut output = String::new();
            output.append("CreateSelectMenu::new(");
            output.append(id.as_str());
            output.append(", CreateSelectMenuKind::String { options: vec![");
            output.append(opts.as_str());
            output.append("] })");
            output.append(setters.as_str());
            Ok(output)
        },
        _ => Err(RewriteError::MissingField),
    }
}

/// One component of an action row, applied to the buttons and select menu kept so far.
#[verifier::spinoff_prover]
fn row_item(item: &BuilderCall, buttons: &mut Vec<String>, select_menu: &mut Option<String>) -> (r:
    Option<RewriteError>)
    ensures
        match item_step(
            RowState {
                buttons: old(buttons)@.map_values(|s: String| s@),
                select: opt_view(*old(select_menu)),
            },
            call_view(*item),
        ) {
            Ok(st) => r is None && final(buttons)@.map_values(|s: String| s@) == st.buttons
                && opt_view(*final(select_menu)) == st.select,
            Err(e) => r == Some(e),
        },
    decreases item, 0int,
{
    proof {
        reveal(item_step);
    }
    proof {
        lemma_first_arg(*item);
    }
    let f = item.field.as_str();
    let nested = item.args.len() > 0 && matches!(item.args[0], BuilderCallArg::NestedClosure(_));
    let literal = item.args.len() > 0 && matches!(item.args[0], BuilderCallArg::Literal(_));
    if text_eq(f, "create_button") {
        if !nested {
            return Some(RewriteError::UnexpectedArgument);
        }
        let b = match &item.args[0] {
            BuilderCallArg::NestedClosure(b) => replace_button(b),
            _ => Err(RewriteError::UnexpectedArgument),
        };
        match b {
            Ok(t) => {
                let ghost before = buttons@;
                buttons.push(t);
                assert(buttons@.map_values(|s: String| s@) =~= before.map_values(|s: String| s@).push(
                    t@,
                ));
                None
            },
            Err(e) => Some(e),
        }
    } else if text_eq(f, "add_button") {
        if !literal {
            return Some(RewriteError::UnexpectedArgument);
        }
        let t = match &item.args[0] {
            BuilderCallArg::Literal(e) => literal_string(e),
            _ => String::new(),
        };
        let ghost before = buttons@;
        buttons.push(t);
        assert(buttons@.map_values(|s: String| s@) =~= before.map_values(|s: String| s@).push(t@));
        None
    } else if text_eq(f, "create_select_menu") {
        if !nested {
            return Some(RewriteError::UnexpectedArgument);
        }
        match &item.args[0] {
            BuilderCallArg::NestedClosure(m) => {
                proof {
                    let a = item.args@[0];
                    assert(decreases_to!(*item => item.args));
                    assert(decreases_to!(item.args => item.args@));
                    assert(decreases_to!(item.args@ => a));
                    assert(decreases_to!(a => a->NestedClosure_0));
                }
                match replace_select_menu(m) {
                    Ok(t) => {
                        *select_menu = Some(t);
                        None
                    },
                    Err(e) => Some(e),
                }
            },
            _ => Some(RewriteError::UnexpectedArgument),
        }
    } else if text_eq(f, "add_select_menu") {
        if !literal {
            return Some(RewriteError::UnexpectedArgument);
        }
        *select_menu = match &item.args[0] {
            BuilderCallArg::Literal(e) => Some(literal_string(e)),
            _ => None,
        };
        None
    } else if text_eq(f, "create_input_text") || text_eq(f, "add_input_text") {
        Some(RewriteError::UnsupportedInputText)
    } else {
        Some(RewriteError::UnexpectedCall)
    }
}

/// One action row: its buttons, or else its select menu.
#[verifier::spinoff_prover]
fn replace_row(call: &BuilderCall) -> (r: Result<String, RewriteError>)
    ensures
        text_view(r) == row_text(call_view(*call)),
    decreases call, 0int,
{
    proof {
        reveal(row_text);
    }
    proof {
        lemma_first_arg(*call);
    }
    if !text_eq(call.field.as_str(), "create_action_row") {
        return Err(RewriteError::UnexpectedCall);
    }
    if call.args.len() == 0 {
        return Err(RewriteError::UnexpectedArgument);
    }
    let row = match &call.args[0] {
        BuilderCallArg::NestedClosure(row) => row,
        _ => return Err(RewriteError::UnexpectedArgument),
    };
    let items = &row.call_chain.calls;
    let mut buttons: Vec<String> = Vec::new();
    let mut select_menu: Option<String> = None;
    let mut err: Option<RewriteError> = None;
    let mut i: usize = 0;
    assert(buttons@.map_values(|s: String| s@) =~= seq![]);
    while i < items.len()
        invariant
            i <= items.len(),
            call.args@.len() > 0,
            call.args@[0] is NestedClosure,
            items == &call.args@[0]->NestedClosure_0.call_chain.calls,
            match row_fold(calls_view(items@.take(i as int))) {
                Ok(st) => err is None && buttons@.map_values(|s: String| s@) == st.buttons
                    && opt_view(select_menu) == st.select,
                Err(e) => err == Some(e),
            },
        decreases items.len() - i,
    {
        proof {
            lemma_calls_prefix(items@, i as int);
        }
        if err.is_none() {
            proof {
                let a = call.args@[0];
                assert(decreases_to!(*call => call.args));
                assert(decreases_to!(call.args => call.args@));
                assert(decreases_to!(call.args@ => a));
                assert(decreases_to!(a => a->NestedClosure_0));
                assert(decreases_to!(a->NestedClosure_0 => a->NestedClosure_0.call_chain));
                assert(decreases_to!(a->NestedClosure_0.call_chain => a->NestedClosure_0.call_chain.calls));
                assert(decreases_to!(a->NestedClosure_0.call_chain.calls => items@));
                assert(decreases_to!(items@ => items@[i as int]));
            }
            err = row_item(&items[i], &mut buttons, &mut select_menu);
        }
        i += 1;
    }
    assert(items@.take(items.len() as int) =~= items@);
    if let Some(e) = err {
        return Err(e);
    }
    let mut output = String::new();
    if buttons.len() > 0 {
        output.append("CreateActionRow::Buttons(vec![");
        output.append(join_strings(&buttons, ", ").as_str());
        output.append("])");
        Ok(output)
    } else {
        match select_menu {
            Some(m) => {
                output.append("CreateActionRow::SelectMenu(");
                output.append(m.as_str());
                output.append(")");
                Ok(output)
            },
            None => Err(RewriteError::EmptyRow),
        }
    }
}

/// `vec![rows..]`
#[verifier::spinoff_prover]
fn replace_create_components(closure: &BuilderClosure) -> (r: Result<String, RewriteError>)
    ensures
        text_view(r) == components_text(closure_view(*closure)),
    decreases closure, 1int,
{
    let calls = &closure.call_chain.calls;
    let mut rows: Vec<String> = Vec::new();
    let mut err: Option<RewriteError> = None;
    let mut i: usize = 0;
    assert(rows@.map_values(|s: String| s@) =~= seq![]);
    while i < calls.len()
        invariant
            i <= calls.len(),
            calls == &closure.call_chain.calls,
            parts_agree(err, rows@, rows_parts(calls_view(calls@.take(i as int)))),
        decreases calls.len() - i,
    {
        proof {
            lemma_calls_prefix(calls@, i as int);
        }
        if err.is_none() {
            proof {
                assert(decreases_to!(*closure => closure.call_chain));
                assert(decreases_to!(closure.call_chain => closure.call_chain.calls));
                assert(decreases_to!(closure.call_chain.calls => calls@));
                assert(decreases_to!(calls@ => calls@[i as int]));
            }
            match replace_row(&calls[i]) {
                Ok(t) => {
                    let ghost before = rows@;
                    rows.push(t);
                    assert(rows@.map_values(|s: String| s@) =~= before.map_values(|s: String| s@).push(
                        t@,
                    ));
                },
                Err(e) => {
                    err = Some(e);
                },
            }
        }
        i += 1;
    }
    assert(calls@.take(calls.len() as int) =~= calls@);
    if let Some(e) = err {
        return Err(e);
    }
    let mut output = String::new();
    output.append("vec![");
    output.append(join_strings(&rows, ", ").as_str());
    output.append("]");
    Ok(output)
}

/// The replacement text of a builder closure.
pub fn replace_closure(closure: &BuilderClosure) -> (r: Result<String, RewriteError>)
    ensures
        text_view(r) == closure_text(closure_view(*closure)),
    decreases closure, 2int,
{
    if text_eq(closure.builder_type.as_str(), "CreateInteractionResponse") {
        replace_create_interaction_response(closure)
    } else if text_eq(closure.builder_type.as_str(), "CreateComponents") {
        replace_create_components(closure)
    } else {
        replace_generic(closure)
    }
}

} // verus!
