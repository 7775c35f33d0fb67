use vstd::prelude::*;
use super::binary::Binary;
use super::compiler::{Compile, Compiler, Emit};
use super::model::events;
use super::oper::Operator;

verus! {

/// An expression as a mathematical tree.
pub enum Tree {
    Integer(i64),
    Binary { first: Box<Tree>, others: Seq<(Operator, Tree)> },
}

/// Operators and their right operands, the operands as trees.
pub open spec fn operands(others: Seq<(Operator, Expr)>) -> Seq<(Operator, Tree)> {
    Seq::new(others.len(), |i: int| (others[i].0, others[i].1@))
}

/// An expression.
#[derive(Debug)]
pub enum Expr {
    /// A literal.
    Integer(i64),
    /// A first operand and the operators that follow it, each with its right
    /// operand.
    Binary(Binary),
}

impl Expr {
    /// The tree that this expression is.
    pub open spec fn tree(&self) -> Tree
        decreases self,
    {
        match self {
            Expr::Integer(v) => Tree::Integer(*v),
            Expr::Binary(b) => Tree::Binary {
                first: Box::new(b.first.tree()),
                others: Seq::new(
                    b.others@.len(),
                    |i: int|
                        if 0 <= i < b.others@.len() {
                            (b.others@[i].0, b.others@[i].1.tree())
                        } else {
                            (Operator::Add, Tree::Integer(0))
                        },
                ),
            },
        }
    }

    /// Hands the nodes of the expression to `compiler`, depth first, without
    /// the `end` that closes a compilation.
    pub fn emit<E, C: Compiler<E>>(&self, compiler: &mut C) -> (r: Result<(), E>)
        requires
            old(compiler).inv(),
        ensures
            final(compiler).unfailing() == old(compiler).unfailing(),
            final(compiler).base() == old(compiler).base(),
            r is Ok ==> final(compiler).inv(),
            r is Ok ==> final(compiler).emitted() == old(compiler).emitted() + events(self@),
            old(compiler).unfailing() ==> r is Ok,
            r matches Err(e) ==> C::raises(e),
        decreases self,
    {
        match self {
            Expr::Integer(v) => {
                let r = compiler.integer(*v);
                proof {
                    assert(old(compiler).emitted().push(Emit::Integer(*v)) =~= old(
                        compiler,
                    ).emitted() + events(self@));
                }
                r
            },
            Expr::Binary(binary) => {
                proof {
                    assert(self@->others =~= binary.tail());
                }
                binary.emit(compiler)
            },
        }
    }
}

impl View for Expr {
    type V = Tree;

    open spec fn view(&self) -> Tree {
        self.tree()
    }
}

impl Compile for Expr {
    open spec fn protocol(&self) -> Seq<Emit> {
        events(self@).push(Emit::End)
    }

    fn compile<E, C: Compiler<E>>(&self, compiler: &mut C) -> (r: Result<(), E>) {
        match self.emit(compiler) {
            Ok(_) => {},
            Err(e) => {
                return Err(e);
            },
        }
        let ghost mid = compiler.emitted();
        let r = compiler.end();
        proof {
            assert(mid.push(Emit::End) =~= old(compiler).emitted() + self.protocol());
        }
        r
    }
}

} // verus!
