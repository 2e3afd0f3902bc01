//! The text of a program in the intermediate representation of LLVM: one
//! function for each statement, and a `main` that calls each and prints what
//! it gives.

use crate::expr::{node_models, outcome, Expr, ExprModel, Node, NodeModel, ParseError, ParseErrorModel};
use crate::grammar::{program, ParseState};
use crate::lexer::{scan_all, Lexer, Op, TokenModel};
use crate::parser::Parser;
use crate::text::{decimal, push_decimal, push_signed_decimal, signed_decimal};
use crate::type_env::TypeEnvModel;
use vstd::prelude::*;

verus! {

/// What every program starts with: the declarations of the functions that
/// print a result.
pub const PRELUDE: &'static str = r#"declare i32 @printf(i8*, ...)
define void @print_int(i64 %a) {
    %fmt = alloca [13 x i8], align 1
    store [13 x i8] c"Result: %d\n\00", [13 x i8]* %fmt, align 1
    %fmt_ptr = getelementptr [13 x i8], [13 x i8]* %fmt, i32 0, i32 0
    call i32 @printf(i8* %fmt_ptr, i64 %a)
    ret void
}

define void @print_float(double %a) {
    %fmt = alloca [13 x i8], align 1
    store [13 x i8] c"Result: %f\n\00", [13 x i8]* %fmt, align 1
    %fmt_ptr = getelementptr [13 x i8], [13 x i8]* %fmt, i32 0, i32 0
    call i32 @printf(i8* %fmt_ptr, double %a)
    ret void
}
"#;

/// The instruction for an operator, for the four that have one.
pub open spec fn instruction(op: Op) -> Option<Seq<char>> {
    match op {
        Op::Add => Some("add"@),
        Op::Sub => Some("sub"@),
        Op::Mul => Some("mul"@),
        Op::Div => Some("sdiv"@),
        _ => None,
    }
}

/// The name of the temporary `counter`.
pub open spec fn temporary(counter: nat) -> Seq<char> {
    "%tmp"@ + decimal(counter)
}

/// What lowering an expression gives.
pub struct Lowered {
    /// The name of the value of the expression.
    pub value: Seq<char>,
    /// The instructions that compute it.
    pub code: Seq<char>,
    /// The number of the next temporary.
    pub counter: nat,
}

/// The error for an expression that has no lowering.
pub open spec fn not_lowered() -> ParseErrorModel {
    ParseErrorModel::BadExpress("the expression cannot be lowered"@)
}

/// The error for a program that needs more temporaries than there are
/// numbers for them.
pub open spec fn out_of_temporaries() -> ParseErrorModel {
    ParseErrorModel::BadExpress("the expression needs too many temporaries"@)
}

/// The lowering of an expression, where the temporaries from `counter` on
/// are free.
///
/// An `Int` becomes a temporary that holds it; an identifier is a value by
/// its name; an operation with `+`, `-`, `*` or `/` lowers its left operand,
/// then its right one, and puts the result in a new temporary. Nothing else
/// has a lowering.
pub open spec fn lowered(e: ExprModel, counter: nat) -> Result<Lowered, ParseErrorModel>
    decreases e,
{
    match e {
        ExprModel::Int(v) => if counter >= u64::MAX {
            Err(out_of_temporaries())
        } else {
            Ok(
                Lowered {
                    value: temporary(counter),
                    code: temporary(counter) + " = add i64 "@ + signed_decimal(v as int) + ", 0"@,
                    counter: counter + 1,
                },
            )
        },
        ExprModel::Identifier(name) => Ok(
            Lowered { value: "%"@ + name, code: Seq::empty(), counter },
        ),
        ExprModel::BinaryOp { left, op, right } => match instruction(op) {
            None => Err(not_lowered()),
            Some(name) => match lowered(left.expr, counter) {
                Err(e) => Err(e),
                Ok(l) => match lowered(right.expr, l.counter) {
                    Err(e) => Err(e),
                    Ok(r) => if r.counter >= u64::MAX {
                        Err(out_of_temporaries())
                    } else {
                        Ok(
                            Lowered {
                                value: temporary(r.counter),
                                code: l.code + "\n"@ + r.code + "\n"@ + temporary(r.counter)
                                    + " = "@ + name + " i64 "@ + l.value + ", "@ + r.value,
                                counter: r.counter + 1,
                            },
                        )
                    },
                },
            },
        },
        _ => Err(not_lowered()),
    }
}

/// The function that computes the statement `e`, the `context`th of its
/// program.
pub open spec fn anon_fn(e: ExprModel, context: nat) -> Result<Seq<char>, ParseErrorModel> {
    match lowered(e, 0) {
        Err(err) => Err(err),
        Ok(l) => Ok(
            "define i64 @anon_fn_"@ + decimal(context) + "() {\n    "@ + l.code + "\n    ret i64 "@
                + l.value + "\n}"@,
        ),
    }
}

/// The call of the function of the `context`th statement.
pub open spec fn anon_call(context: nat) -> Seq<char> {
    "%anon_call_"@ + decimal(context) + " = call i64 @anon_fn_"@ + decimal(context) + "()\n"@
}

/// The call that prints the result of the `context`th statement.
pub open spec fn anon_print(context: nat) -> Seq<char> {
    "call void @print_int(i64 %anon_call_"@ + decimal(context) + ")\n"@
}

/// The functions of the first `count` of `items`, one after the other; the
/// first error where one has no lowering.
pub open spec fn functions(items: Seq<NodeModel>, count: nat) -> Result<Seq<char>, ParseErrorModel>
    decreases count,
{
    if count == 0 || count > items.len() {
        Ok(Seq::empty())
    } else {
        match functions(items, (count - 1) as nat) {
            Err(e) => Err(e),
            Ok(before) => match anon_fn(items[count - 1].expr, (count - 1) as nat) {
                Err(e) => Err(e),
                Ok(text) => Ok(before + text),
            },
        }
    }
}

/// The calls for the first `count` statements, one after the other.
pub open spec fn calls(count: nat) -> Seq<char>
    decreases count,
{
    if count == 0 {
        Seq::empty()
    } else {
        calls((count - 1) as nat) + anon_call((count - 1) as nat) + anon_print(
            (count - 1) as nat,
        )
    }
}

/// The text of the program whose statements are `items`.
pub open spec fn module_text(items: Seq<NodeModel>) -> Result<Seq<char>, ParseErrorModel> {
    match functions(items, items.len()) {
        Err(e) => Err(e),
        Ok(text) => Ok(
            PRELUDE@ + text + "define i32 @main() {\n"@ + calls(items.len()) + "ret i32 0\n}"@,
        ),
    }
}

/// The statements of a program.
pub open spec fn statements_of(root: NodeModel) -> Seq<NodeModel> {
    match root.expr {
        ExprModel::Block(items) => items,
        _ => Seq::empty(),
    }
}

/// The state of a parser that has read nothing.
pub open spec fn initial_state() -> ParseState {
    ParseState {
        pos: 0,
        types: TypeEnvModel::empty(),
        scope: Map::<Seq<char>, NodeModel>::empty(),
        next_id: 0,
    }
}

/// The text of the program that `tokens` write: an error where the tokens
/// are no program, or where a statement has no lowering.
pub open spec fn compiled(tokens: Seq<TokenModel>) -> Result<Seq<char>, ParseErrorModel> {
    match program(tokens, initial_state()).0 {
        Err(e) => Err(e),
        Ok(root) => module_text(statements_of(root)),
    }
}

/// What lowering gives, as strings.
pub struct LoweredText {
    pub value: String,
    pub code: String,
}

/// The model of what lowering gives, with the counter after it.
pub open spec fn lowering(r: Result<LoweredText, ParseError>, counter: u64) -> Result<
    Lowered,
    ParseErrorModel,
> {
    match r {
        Ok(l) => Ok(Lowered { value: l.value@, code: l.code@, counter: counter as nat }),
        Err(e) => Err(e@),
    }
}

impl Expr {
    /// The lowering of this expression, where the temporaries from `counter`
    /// on are free. On success `counter` is the number of the next free
    /// temporary.
    pub fn to_llvm_ir(&self, counter: &mut u64) -> (r: Result<LoweredText, ParseError>)
        ensures
            lowering(r, *final(counter)) == lowered(self@, *old(counter) as nat),
        decreases self,
    {
        match self {
            Expr::Int(v) => {
                if *counter == u64::MAX {
                    return Err(
                        ParseError::BadExpress(
                            String::from_str("the expression needs too many temporaries"),
                        ),
                    );
                }
                let mut value = String::from_str("%tmp");
                push_decimal(&mut value, *counter);
                let mut code = value.clone();
                code.append(" = add i64 ");
                push_signed_decimal(&mut code, *v);
                code.append(", 0");
                *counter = *counter + 1;
                Ok(LoweredText { value, code })
            },
            Expr::Identifier(name) => {
                let mut value = String::from_str("%");
                value.append(name.as_str());
                Ok(LoweredText { value, code: String::new() })
            },
            Expr::BinaryOp { left, op, right } => {
                let name = match op {
                    Op::Add => "add",
                    Op::Sub => "sub",
                    Op::Mul => "mul",
                    Op::Div => "sdiv",
                    _ => {
                        return Err(
                            ParseError::BadExpress(
                                String::from_str("the expression cannot be lowered"),
                            ),
                        );
                    },
                };
                let l = match left.expr.to_llvm_ir(counter) {
                    Ok(l) => l,
                    Err(e) => {
                        return Err(e);
                    },
                };
                let r = match right.expr.to_llvm_ir(counter) {
                    Ok(r) => r,
                    Err(e) => {
                        return Err(e);
                    },
                };
                if *counter == u64::MAX {
                    return Err(
                        ParseError::BadExpress(
                            String::from_str("the expression needs too many temporaries"),
                        ),
                    );
                }
                let mut value = String::from_str("%tmp");
                push_decimal(&mut value, *counter);
                let mut code = l.code;
                code.append("\n");
                code.append(r.code.as_str());
                code.append("\n");
                code.append(value.as_str());
                code.append(" = ");
                code.append(name);
                code.append(" i64 ");
                code.append(l.value.as_str());
                code.append(", ");
                code.append(r.value.as_str());
                *counter = *counter + 1;
                Ok(LoweredText { value, code })
            },
            _ => Err(ParseError::BadExpress(String::from_str("the expression cannot be lowered"))),
        }
    }

    /// The function that computes this statement, the `context`th of its
    /// program.
    pub fn to_anon_fn(&self, context: u64) -> (r: Result<String, ParseError>)
        ensures
            outcome(r) == anon_fn(self@, context as nat),
    {
        let mut counter: u64 = 0;
        let l = match self.to_llvm_ir(&mut counter) {
            Ok(l) => l,
            Err(e) => {
                return Err(e);
            },
        };
        let mut text = String::from_str("define i64 @anon_fn_");
        push_decimal(&mut text, context);
        text.append("() {\n    ");
        text.append(l.code.as_str());
        text.append("\n    ret i64 ");
        text.append(l.value.as_str());
        text.append("\n}");
        Ok(text)
    }

    /// The call of the function of the `context`th statement.
    pub fn to_anon_call(&self, context: u64) -> (r: String)
        ensures
            r@ == anon_call(context as nat),
    {
        let mut text = String::from_str("%anon_call_");
        push_decimal(&mut text, context);
        text.append(" = call i64 @anon_fn_");
        push_decimal(&mut text, context);
        text.append("()\n");
        text
    }

    /// The call that prints the result of the `context`th statement.
    pub fn anon_debug(&self, context: u64) -> (r: String)
        ensures
            r@ == anon_print(context as nat),
    {
        let mut text = String::from_str("call void @print_int(i64 %anon_call_");
        push_decimal(&mut text, context);
        text.append(")\n");
        text
    }
}

/// The text of the program whose statements are `items`.
pub fn emit(items: &Vec<Node>) -> (r: Result<String, ParseError>)
    ensures
        outcome(r) == module_text(node_models(items@)),
{
    let ghost models = node_models(items@);
    let mut text = String::from_str(PRELUDE);
    let mut main_text = String::from_str("define i32 @main() {\n");
    let mut i: usize = 0;
    while i < items.len()
        invariant
            i <= items.len(),
            models == node_models(items@),
            functions(models, i as nat) is Ok,
            text@ == PRELUDE@ + functions(models, i as nat)->Ok_0,
            main_text@ == "define i32 @main() {\n"@ + calls(i as nat),
        decreases items.len() - i,
    {
        let item = &items[i];
        assert(models[i as int] == item@);
        let context = i as u64;
        let function = match item.expr.to_anon_fn(context) {
            Ok(function) => function,
            Err(e) => {
                proof {
                    lemma_functions_fail(models, i as nat + 1, models.len());
                }
                return Err(e);
            },
        };
        text.append(function.as_str());
        main_text.append(item.expr.to_anon_call(context).as_str());
        main_text.append(item.expr.anon_debug(context).as_str());
        proof {
            assert(text@ =~= PRELUDE@ + functions(models, i as nat + 1)->Ok_0);
            assert(main_text@ =~= "define i32 @main() {\n"@ + calls(i as nat + 1));
        }
        i += 1;
    }
    main_text.append("ret i32 0\n}");
    text.append(main_text.as_str());
    proof {
        assert(text@ =~= module_text(models)->Ok_0);
    }
    Ok(text)
}

/// Once a statement has no lowering, no longer run of statements has one,
/// and the error stays the same.
pub proof fn lemma_functions_fail(items: Seq<NodeModel>, count: nat, more: nat)
    requires
        functions(items, count) is Err,
        count <= more <= items.len(),
    ensures
        functions(items, more) == functions(items, count),
    decreases more - count,
{
    if count < more {
        lemma_functions_fail(items, count, (more - 1) as nat);
    }
}

/// The statements of the program that `parser` reads.
pub fn parsing_loop(parser: Parser) -> (r: Result<Vec<Node>, ParseError>)
    requires
        parser.wf(),
    ensures
        match r {
            Ok(items) => program(parser@.tokens, parser@.state).0 matches Ok(root)
                && node_models(items@) == statements_of(root),
            Err(e) => program(parser@.tokens, parser@.state).0 == Err::<
                NodeModel,
                ParseErrorModel,
            >(e@),
        },
{
    let mut parser = parser;
    let root = match parser.parse() {
        Ok(root) => root,
        Err(e) => {
            return Err(e);
        },
    };
    let mut items: Vec<Node> = Vec::new();
    match &*root.expr {
        Expr::Block(statements) => {
            let mut i: usize = 0;
            while i < statements.len()
                invariant
                    i <= statements.len(),
                    items@ == statements@.subrange(0, i as int),
                decreases statements.len() - i,
            {
                items.push(statements[i].share());
                proof {
                    assert(items@ =~= statements@.subrange(0, i as int + 1));
                }
                i += 1;
            }
            proof {
                assert(statements@.subrange(0, i as int) =~= statements@);
                assert(root@.expr->Block_0 =~= node_models(statements@));
            }
        },
        _ => {},
    }
    Ok(items)
}

/// The text of the program that `lexer` reads, in the intermediate
/// representation of LLVM.
pub fn run(lexer: Lexer) -> (r: Result<String, ParseError>)
    ensures
        outcome(r) == compiled(scan_all(lexer@.chars, lexer@.pos)),
{
    let parser = Parser::new(lexer);
    let items = match parsing_loop(parser) {
        Ok(items) => items,
        Err(e) => {
            return Err(e);
        },
    };
    emit(&items)
}

} // verus!
