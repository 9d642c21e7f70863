use cyclomatic_complexity::syntax::{
    AssignOperator, Block, Expr, ExprArray, ExprAssign, ExprAssignOp, ExprBlock, ExprBreak,
    ExprIf, Stmt,
};

fn other(digest: u64) -> Expr {
    Expr::Other(digest)
}

fn block(stmts: Vec<Stmt>) -> Block {
    Block { stmts }
}

fn if_then(then_branch: Block) -> Expr {
    Expr::If(ExprIf { digest: 0, cond: Box::new(other(1)), then_branch, else_branch: None })
}

fn if_else(then_branch: Block, else_branch: Expr) -> Expr {
    Expr::If(ExprIf {
        digest: 0,
        cond: Box::new(other(1)),
        then_branch,
        else_branch: Some(Box::new(else_branch)),
    })
}

fn break_with(value: Expr) -> ExprBreak {
    ExprBreak { digest: 0, label: None, expr: Some(Box::new(value)) }
}

fn braces(stmts: Vec<Stmt>) -> Expr {
    Expr::Block(ExprBlock { digest: 0, block: block(stmts) })
}

#[test]
fn empty_block_has_no_decision() {
    assert_eq!(block(vec![]).process(), 0);
}

#[test]
fn body_without_if_has_no_decision() {
    let body = block(vec![
        Stmt::Local(1),
        Stmt::Semi(other(2)),
        Stmt::Item(3),
        Stmt::Expr(Expr::Array(ExprArray { digest: 0, elems: vec![other(4), other(5)] })),
        Stmt::Expr(Expr::Break(break_with(other(6)))),
        Stmt::Expr(other(7)),
    ]);
    assert_eq!(body.process(), 0);
}

#[test]
fn one_if_else_is_one_decision() {
    let body = block(vec![Stmt::Expr(if_else(block(vec![]), braces(vec![])))]);
    assert_eq!(body.process(), 1);
}

#[test]
fn if_else_adds_the_decisions_of_its_branches() {
    let nested_then = block(vec![Stmt::Expr(if_then(block(vec![])))]);
    let nested_else = braces(vec![
        Stmt::Expr(if_then(block(vec![]))),
        Stmt::Expr(if_then(block(vec![]))),
    ]);
    let body = block(vec![Stmt::Expr(if_else(nested_then, nested_else))]);
    assert_eq!(body.process(), 1 + 1 + 2);
}

#[test]
fn else_if_chain_counts_each_if() {
    let chain = if_else(block(vec![]), if_else(block(vec![]), braces(vec![])));
    assert_eq!(block(vec![Stmt::Expr(chain)]).process(), 2);
    let longer = if_else(
        block(vec![]),
        if_else(block(vec![]), if_else(block(vec![]), if_then(block(vec![])))),
    );
    assert_eq!(longer.process(), 4);
}

#[test]
fn else_if_chain_adds_nested_decisions() {
    let one = || block(vec![Stmt::Expr(if_then(block(vec![])))]);
    let chain = if_else(one(), if_else(one(), braces(vec![Stmt::Expr(if_then(block(vec![])))])));
    assert_eq!(chain.process(), 2 + 3);
}

#[test]
fn condition_of_an_if_is_not_counted() {
    let e = Expr::If(ExprIf {
        digest: 0,
        cond: Box::new(if_then(block(vec![]))),
        then_branch: block(vec![]),
        else_branch: None,
    });
    assert_eq!(e.process(), 1);
}

#[test]
fn statement_with_semicolon_is_counted() {
    let body = block(vec![Stmt::Semi(if_then(block(vec![]))), Stmt::Expr(if_then(block(vec![])))]);
    assert_eq!(body.process(), 2);
}

#[test]
fn one_if_followed_by_a_semicolon_is_one_decision() {
    assert_eq!(block(vec![Stmt::Semi(if_then(block(vec![])))]).process(), 1);
    let nested = block(vec![Stmt::Semi(if_else(
        block(vec![Stmt::Semi(if_then(block(vec![])))]),
        braces(vec![Stmt::Semi(if_then(block(vec![])))]),
    ))]);
    assert_eq!(nested.process(), 3);
}

#[test]
fn let_and_item_statements_are_not_counted() {
    assert_eq!(block(vec![Stmt::Local(1), Stmt::Item(2)]).process(), 0);
}

#[test]
fn nested_block_adds_nothing_of_its_own() {
    let body = block(vec![Stmt::Expr(braces(vec![Stmt::Expr(braces(vec![Stmt::Expr(if_then(
        block(vec![]),
    ))]))]))]);
    assert_eq!(body.process(), 1);
}

#[test]
fn break_adds_nothing_of_its_own() {
    let plain = ExprBreak { digest: 0, label: Some("outer".to_string()), expr: None };
    assert_eq!(plain.process(), 0);
    let with_value = break_with(if_then(block(vec![])));
    assert_eq!(with_value.process(), 1);
}

#[test]
fn array_and_assignments_add_what_their_parts_add() {
    let array = ExprArray {
        digest: 0,
        elems: vec![if_then(block(vec![])), other(1), if_then(block(vec![]))],
    };
    assert_eq!(array.process(), 2);
    let assign = ExprAssign {
        digest: 0,
        left: Box::new(other(1)),
        right: Box::new(if_else(block(vec![]), braces(vec![]))),
    };
    assert_eq!(assign.process(), 1);
    let assign_op = ExprAssignOp {
        digest: 0,
        op: AssignOperator::Add,
        left: Box::new(if_then(block(vec![]))),
        right: Box::new(if_then(block(vec![]))),
    };
    assert_eq!(assign_op.process(), 2);
    let inner = ExprBlock { digest: 0, block: block(vec![Stmt::Expr(if_then(block(vec![])))]) };
    assert_eq!(inner.process(), 1);
    assert_eq!(
        ExprIf {
            digest: 0,
            cond: Box::new(other(0)),
            then_branch: block(vec![]),
            else_branch: None
        }
            .process(),
        1
    );
}
