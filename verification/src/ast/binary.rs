use vstd::prelude::*;
use super::compiler::{Compiler, Emit};
use super::expr::{operands, Expr, Tree};
use super::model::{events, steps};
use super::oper::Operator;

verus! {

/// A first operand and one or more operators, each with its right operand.
#[derive(Debug)]
pub struct Binary {
    pub first: Box<Expr>,
    pub others: Vec<(Operator, Expr)>,
}

impl Binary {
    /// The right operands with their operators, as trees.
    pub open spec fn tail(&self) -> Seq<(Operator, Tree)> {
        operands(self.others@)
    }

    /// The node of `first` followed by `others`.
    pub fn new(first: Expr, others: Vec<(Operator, Expr)>) -> (e: Expr)
        requires
            others@.len() > 0,
        ensures
            e@ == (Tree::Binary { first: Box::new(first@), others: operands(others@) }),
    {
        let e = Expr::Binary(Self { first: Box::new(first), others });
        proof {
            assert(e@->others =~= operands(others@));
        }
        e
    }

    /// Hands the node to `compiler`: the first operand, then for each operator
    /// the marker, the right operand and the operator.
    pub fn emit<E, C: Compiler<E>>(&self, compiler: &mut C) -> (r: Result<(), E>)
        requires
            old(compiler).inv(),
        ensures
            final(compiler).unfailing() == old(compiler).unfailing(),
            final(compiler).base() == old(compiler).base(),
            r is Ok ==> final(compiler).inv(),
            r is Ok ==> final(compiler).emitted() == old(compiler).emitted() + events(self.first@)
                + steps(self.tail()),
            old(compiler).unfailing() ==> r is Ok,
            r matches Err(e) ==> C::raises(e),
        decreases self,
    {
        match self.first.emit(compiler) {
            Ok(_) => {},
            Err(e) => {
                return Err(e);
            },
        }
        let ghost base = old(compiler).emitted() + events(self.first@);
        let n = self.others.len();
        let mut i: usize = 0;
        proof {
            assert(self.tail().take(0) =~= Seq::empty());
            assert(base + steps(self.tail().take(0)) =~= base);
        }
        while i < n
            invariant
                i <= n,
                n == self.others@.len(),
                compiler.inv(),
                compiler.unfailing() == old(compiler).unfailing(),
                compiler.base() == old(compiler).base(),
                compiler.emitted() == base + steps(self.tail().take(i as int)),
            decreases n - i,
        {
            match compiler.binary() {
                Ok(_) => {},
                Err(e) => {
                    return Err(e);
                },
            }
            let pair = &self.others[i];
            match pair.1.emit(compiler) {
                Ok(_) => {},
                Err(e) => {
                    return Err(e);
                },
            }
            match compiler.operator(pair.0) {
                Ok(_) => {},
                Err(e) => {
                    return Err(e);
                },
            }
            proof {
                let now = self.tail().take(i + 1);
                assert(now.drop_last() =~= self.tail().take(i as int));
                assert(now.last() == self.tail()[i as int]);
                assert(compiler.emitted() =~= base + steps(now));
            }
            i += 1;
        }
        proof {
            assert(self.tail().take(n as int) =~= self.tail());
        }
        Ok(())
    }
}

} // verus!
