//! The type checker: recursive typing rules over the syntax tree, a scoped
//! binding environment, and the conversion of annotations into checked types.
use vstd::prelude::*;
use crate::ast::{Ast, TypeAst, same_shape};

verus! {

/// A checked type. Equality of types is structural: two `Function` types
/// are equal exactly when their domains and codomains are, recursively.
#[derive(Debug, PartialEq, Eq)]
pub enum Type {
    Int,
    Bool,
    Function(Box<Type>, Box<Type>),
}

/// Why a check rejected its input.
#[derive(Debug, Clone, Copy, PartialEq, Eq)]
pub enum TypeError {
    /// A variable was referenced with no binding in scope.
    UnboundVariable,
    /// An operator or binding received an operand of a type its rule does
    /// not permit.
    TypeMismatch,
}

impl Clone for Type {
    /// A deep copy, equal to the original.
    fn clone(&self) -> (res: Self)
        ensures
            res == *self,
        decreases *self,
    {
        match self {
            Type::Int => Type::Int,
            Type::Bool => Type::Bool,
            Type::Function(dom, cod) => Type::Function(
                Box::new((**dom).clone()),
                Box::new((**cod).clone()),
            ),
        }
    }
}

/// The meaning of a type annotation: the checked type it denotes.
/// Conversion is total on the current grammar, since every annotation
/// variant has a corresponding type variant.
pub open spec fn spec_convert(t: TypeAst) -> Type
    decreases t,
{
    match t {
        TypeAst::Int(_) => Type::Int,
        TypeAst::Bool(_) => Type::Bool,
        TypeAst::Function(l, r) => Type::Function(
            Box::new(spec_convert(*l)),
            Box::new(spec_convert(*r)),
        ),
    }
}

/// The bindings in scope during a check, innermost last: each entry pairs
/// a variable name, as its character sequence, with the bound type.
pub type Env = Seq<(Seq<char>, Type)>;

/// What a name resolves to under `env`: the innermost binding wins.
pub open spec fn spec_lookup(env: Env, name: Seq<char>) -> Option<Type>
    decreases env.len(),
{
    if env.len() == 0 {
        None
    } else if env.last().0 == name {
        Some(env.last().1)
    } else {
        spec_lookup(env.drop_last(), name)
    }
}

/// Equality of checked types is structural: two annotations convert to
/// equal types exactly when they have the same shape, whatever spans they
/// carry, and to different types otherwise — no coercion identifies `Int`,
/// `Bool`, or any pair of distinct `Function` shapes.
pub proof fn lemma_convert_structural(a: TypeAst, b: TypeAst)
    ensures
        spec_convert(a) == spec_convert(b) <==> same_shape(a, b),
    decreases a,
{
    match (a, b) {
        (TypeAst::Function(al, ar), TypeAst::Function(bl, br)) => {
            lemma_convert_structural(*al, *bl);
            lemma_convert_structural(*ar, *br);
        },
        _ => {},
    }
}

/// Shadowing: pushing a binding for `n` makes `n` resolve to it — hiding
/// any outer binding — and leaves every other name's resolution unchanged.
pub proof fn lemma_lookup_push(env: Env, n: Seq<char>, t: Type, m: Seq<char>)
    ensures
        spec_lookup(env.push((n, t)), m) == (if m == n {
            Some(t)
        } else {
            spec_lookup(env, m)
        }),
{
    assert(env.push((n, t)).drop_last() =~= env);
}

/// The typing rules, one per node kind, applied bottom-up with `env`
/// threaded downward and grown under the two binding forms. The first
/// failure in evaluation order — left operand before right operand, bound
/// expression before body — is the result.
pub open spec fn spec_typecheck(env: Env, ast: Ast) -> Result<Type, TypeError>
    decreases ast,
{
    match ast {
        Ast::Paren(e, _) => spec_typecheck(env, *e),
        Ast::Var(name, _) => match spec_lookup(env, name@) {
            Some(t) => Ok(t),
            None => Err(TypeError::UnboundVariable),
        },
        Ast::IntLiteral(_, _) => Ok(Type::Int),
        Ast::BoolLiteral(_, _) => Ok(Type::Bool),
        Ast::And(l, r) => match spec_typecheck(env, *l) {
            Ok(lt) => match spec_typecheck(env, *r) {
                Ok(rt) => if lt is Bool && rt is Bool {
                    Ok(Type::Bool)
                } else {
                    Err(TypeError::TypeMismatch)
                },
                Err(e) => Err(e),
            },
            Err(e) => Err(e),
        },
        Ast::Eq(l, r) => match spec_typecheck(env, *l) {
            Ok(lt) => match spec_typecheck(env, *r) {
                Ok(rt) => if (lt is Int && rt is Int) || (lt is Bool && rt is Bool) {
                    Ok(Type::Bool)
                } else {
                    Err(TypeError::TypeMismatch)
                },
                Err(e) => Err(e),
            },
            Err(e) => Err(e),
        },
        Ast::Add(l, r) => match spec_typecheck(env, *l) {
            Ok(lt) => match spec_typecheck(env, *r) {
                Ok(rt) => if lt is Int && rt is Int {
                    Ok(Type::Int)
                } else {
                    Err(TypeError::TypeMismatch)
                },
                Err(e) => Err(e),
            },
            Err(e) => Err(e),
        },
        Ast::Let { name, right, body, .. } => match spec_typecheck(env, *right) {
            Ok(t) => spec_typecheck(env.push((name@, t)), *body),
            Err(e) => Err(e),
        },
        Ast::Function { input, input_type, ret, .. } => {
            let t = spec_convert(input_type);
            match spec_typecheck(env.push((input.0@, t)), *ret) {
                Ok(rt) => Ok(Type::Function(Box::new(t), Box::new(rt))),
                Err(e) => Err(e),
            }
        },
    }
}

/// Whether two string slices hold the same characters.
fn str_eq(a: &str, b: &str) -> (r: bool)
    ensures
        r == (a@ == b@),
{
    let n = a.unicode_len();
    let m = b.unicode_len();
    if n != m {
        proof {
            assert(a@ != b@) by {
                assert(a@.len() != b@.len());
            }
        }
        return false;
    }
    let mut i: usize = 0;
    while i < n
        invariant
            n == a@.len(),
            n == b@.len(),
            i <= n,
            forall|j: int| 0 <= j < i ==> a@[j] == b@[j],
        decreases n - i,
    {
        if a.get_char(i) != b.get_char(i) {
            return false;
        }
        i = i + 1;
    }
    proof {
        assert(a@ =~= b@);
    }
    true
}

/// An in-progress checking pass: the stack of bindings currently in scope.
/// Each pass starts empty and is scoped to that pass.
pub struct TypeChecker {
    vars: Vec<(String, Type)>,
}

impl TypeChecker {
    /// The bindings now in scope, innermost last.
    pub closed spec fn env(&self) -> Env {
        Seq::new(self.vars@.len(), |i: int| (self.vars@[i].0@, self.vars@[i].1))
    }

    /// A fresh pass with nothing in scope.
    pub fn new() -> (checker: TypeChecker)
        ensures
            checker.env() == Seq::<(Seq<char>, Type)>::empty(),
    {
        let checker = TypeChecker { vars: Vec::new() };
        proof {
            assert(checker.env() =~= Seq::<(Seq<char>, Type)>::empty());
        }
        checker
    }

    /// Returns the type currently bound to `name`, or nothing when `name`
    /// is not in scope. The innermost binding wins.
    pub fn get_var(&self, name: &str) -> (r: Option<Type>)
        ensures
            r == spec_lookup(self.env(), name@),
    {
        let mut i: usize = self.vars.len();
        proof {
            assert(self.env().take(i as int) =~= self.env());
        }
        while i > 0
            invariant
                i <= self.vars.len(),
                spec_lookup(self.env(), name@) == spec_lookup(
                    self.env().take(i as int),
                    name@,
                ),
            decreases i,
        {
            i = i - 1;
            proof {
                assert(self.env().take(i + 1).last() == self.env()[i as int]);
                assert(self.env().take(i + 1).drop_last() =~= self.env().take(i as int));
            }
            if str_eq(self.vars[i].0.as_str(), name) {
                return Some(self.vars[i].1.clone());
            }
        }
        proof {
            assert(self.env().take(0) =~= Seq::<(Seq<char>, Type)>::empty());
        }
        None
    }

    /// The scoped mutation primitive: binds `name` to `t`, runs `f` on the
    /// checker, then removes the innermost binding before returning `f`'s
    /// result. When `f` leaves the scope as it found it — as every checking
    /// pass does, whether it succeeds or fails — the whole call restores
    /// the environment exactly, so a shadowed outer binding becomes visible
    /// again and a fresh one disappears.
    pub fn var<F, T>(&mut self, name: String, t: Type, f: F) -> (ret: T) where
        F: FnOnce(&mut TypeChecker) -> T,

        requires
            forall|c: &mut TypeChecker|
                mut_ref_current(c).env() == old(self).env().push((name@, t))
                    ==> call_requires(f, (c,)),
        ensures
            exists|c: &mut TypeChecker|
                {
                    &&& mut_ref_current(c).env() == old(self).env().push((name@, t))
                    &&& call_ensures(f, (c,), ret)
                    &&& final(self).env() == (if mut_ref_future(c).env().len() > 0 {
                        mut_ref_future(c).env().drop_last()
                    } else {
                        mut_ref_future(c).env()
                    })
                },
            (forall|c: &mut TypeChecker, r: T|
                call_ensures(f, (c,), r) ==> mut_ref_future(c).env() == mut_ref_current(
                    c,
                ).env()) ==> final(self).env() == old(self).env(),
    {
        let ghost env0 = self.env();
        self.vars.push((name, t));
        proof {
            assert(self.env() =~= env0.push((name@, t)));
        }
        let ret = f(self);
        let ghost envf = self.env();
        // `f` holds the checker itself, so its type cannot keep it from
        // shrinking the scope; the pop is guarded for that case.
        if self.vars.len() > 0 {
            let _ = self.vars.pop();
            proof {
                assert(self.env() =~= envf.drop_last());
                assert(env0.push((name@, t)).drop_last() =~= env0);
            }
        }
        ret
    }

    /// Converts a type annotation into a checked type. The result carries
    /// an error case only for future extension: on the current grammar the
    /// conversion always succeeds.
    pub fn eval(&self, type_ast: &TypeAst) -> (r: Result<Type, TypeError>)
        ensures
            r == Ok::<Type, TypeError>(spec_convert(*type_ast)),
        decreases *type_ast,
    {
        match type_ast {
            TypeAst::Int(_) => Ok(Type::Int),
            TypeAst::Bool(_) => Ok(Type::Bool),
            TypeAst::Function(l, r) => {
                match self.eval(l) {
                    Err(e) => Err(e),
                    Ok(lt) => match self.eval(r) {
                        Err(e) => Err(e),
                        Ok(rt) => Ok(Type::Function(Box::new(lt), Box::new(rt))),
                    },
                }
            },
        }
    }

    /// Checks `ast` under the bindings now in scope and returns its type,
    /// or the first failure met in evaluation order. The environment is
    /// restored to exactly its pre-call contents on every path, so a pass
    /// on a fresh checker both starts and ends with nothing in scope, and
    /// repeated checks of one tree agree.
    pub fn typecheck(&mut self, ast: &Ast) -> (r: Result<Type, TypeError>)
        ensures
            r == spec_typecheck(old(self).env(), *ast),
            final(self).env() == old(self).env(),
        decreases *ast,
    {
        match ast {
            Ast::Paren(e, _) => self.typecheck(e),
            Ast::Var(name, _) => match self.get_var(name.as_str()) {
                Some(t) => Ok(t),
                None => Err(TypeError::UnboundVariable),
            },
            Ast::IntLiteral(_, _) => Ok(Type::Int),
            Ast::BoolLiteral(_, _) => Ok(Type::Bool),
            Ast::And(l, r) => match self.typecheck(l) {
                Err(e) => Err(e),
                Ok(lt) => match self.typecheck(r) {
                    Err(e) => Err(e),
                    Ok(rt) => match (lt, rt) {
                        (Type::Bool, Type::Bool) => Ok(Type::Bool),
                        _ => Err(TypeError::TypeMismatch),
                    },
                },
            },
            Ast::Eq(l, r) => match self.typecheck(l) {
                Err(e) => Err(e),
                Ok(lt) => match self.typecheck(r) {
                    Err(e) => Err(e),
                    Ok(rt) => match (lt, rt) {
                        (Type::Int, Type::Int) => Ok(Type::Bool),
                        (Type::Bool, Type::Bool) => Ok(Type::Bool),
                        _ => Err(TypeError::TypeMismatch),
                    },
                },
            },
            Ast::Add(l, r) => match self.typecheck(l) {
                Err(e) => Err(e),
                Ok(lt) => match self.typecheck(r) {
                    Err(e) => Err(e),
                    Ok(rt) => match (lt, rt) {
                        (Type::Int, Type::Int) => Ok(Type::Int),
                        _ => Err(TypeError::TypeMismatch),
                    },
                },
            },
            Ast::Let { name, right, body, .. } => match self.typecheck(right) {
                Err(e) => Err(e),
                Ok(t) => {
                    let ghost env0 = self.env();
                    self.vars.push((name.clone(), t));
                    proof {
                        assert(self.env() =~= env0.push((name@, t)));
                    }
                    let r = self.typecheck(body);
                    let ghost envf = self.env();
                    let _ = self.vars.pop();
                    proof {
                        assert(self.env() =~= envf.drop_last());
                        assert(envf.drop_last() =~= env0);
                    }
                    r
                },
            },
            Ast::Function { input, input_type, ret, .. } => match self.eval(input_type) {
                Err(e) => Err(e),
                Ok(t) => {
                    let ghost env0 = self.env();
                    self.vars.push((input.0.clone(), t.clone()));
                    proof {
                        assert(self.env() =~= env0.push((input.0@, t)));
                    }
                    let r = self.typecheck(ret);
                    let ghost envf = self.env();
                    let _ = self.vars.pop();
                    proof {
                        assert(self.env() =~= envf.drop_last());
                        assert(envf.drop_last() =~= env0);
                    }
                    match r {
                        Err(e) => Err(e),
                        Ok(rt) => Ok(Type::Function(Box::new(t), Box::new(rt))),
                    }
                },
            },
        }
    }
}

} // verus!
