//! The syntax that the analysis reads, as plain values.
//!
//! A node holds what is read off it: a part that may be missing from a broken program is an
//! `Option`.  Nodes are shared, so a clone copies no tree.

use std::sync::Arc;

use vstd::prelude::*;

use crate::ids::{LuaSyntaxId, TextRange};

verus! {

#[derive(Debug, Clone, Copy, PartialEq, Eq, Structural)]
pub enum UnaryOperator {
    OpNot,
    OpLen,
    OpUnm,
    OpBNot,
}

#[derive(Debug, Clone, Copy, PartialEq, Eq, Structural)]
pub enum BinaryOperator {
    OpAdd,
    OpSub,
    OpOr,
    OpAnd,
    OpEq,
    OpNe,
    Other,
}

/// An expression.
#[derive(Debug)]
pub enum LuaExpr {
    NameExpr(Arc<LuaNameExpr>),
    CallExpr(Arc<LuaCallExpr>),
    IndexExpr(Arc<LuaIndexExpr>),
    TableExpr(LuaTableExpr),
    LiteralExpr(LuaSyntaxId),
    ClosureExpr(LuaClosureExpr),
    BinaryExpr(Arc<LuaBinaryExpr>),
    UnaryExpr(Arc<LuaUnaryExpr>),
    ParenExpr(Arc<LuaParenExpr>),
}

#[derive(Debug)]
pub struct LuaNameExpr {
    pub syntax_id: LuaSyntaxId,
    pub name_text: Option<String>,
    pub access_path: Option<String>,
}

/// A call.  `args` is missing where the call has no argument list.
#[derive(Debug)]
pub struct LuaCallExpr {
    pub syntax_id: LuaSyntaxId,
    pub prefix_expr: Option<LuaExpr>,
    pub is_colon_call: bool,
    pub args: Option<Vec<LuaExpr>>,
}

#[derive(Debug)]
pub struct LuaIndexExpr {
    pub syntax_id: LuaSyntaxId,
    pub prefix_expr: Option<LuaExpr>,
    pub index_key: Option<LuaIndexKey>,
    pub access_path: Option<String>,
}

#[derive(Debug, Clone, Copy, PartialEq, Eq, Structural)]
pub struct LuaTableExpr {
    pub syntax_id: LuaSyntaxId,
    pub is_empty: bool,
}

#[derive(Debug, Clone, Copy, PartialEq, Eq, Structural)]
pub struct LuaClosureExpr {
    pub syntax_id: LuaSyntaxId,
}

#[derive(Debug)]
pub struct LuaBinaryExpr {
    pub syntax_id: LuaSyntaxId,
    pub op: Option<BinaryOperator>,
    pub exprs: Option<(LuaExpr, LuaExpr)>,
}

#[derive(Debug)]
pub struct LuaUnaryExpr {
    pub syntax_id: LuaSyntaxId,
    pub op: Option<UnaryOperator>,
    pub expr: Option<LuaExpr>,
}

#[derive(Debug)]
pub struct LuaParenExpr {
    pub syntax_id: LuaSyntaxId,
    pub expr: Option<LuaExpr>,
}

/// The key of an index expression or of a table field.
#[derive(Debug)]
pub enum LuaIndexKey {
    /// A key that stands in the source: a name, a string or a number, interned.
    Static(u32),
    /// `[expr]`.
    Expr(LuaExpr),
}

/// The left side of an assignment.
#[derive(Debug)]
pub enum LuaVarExpr {
    NameExpr(Arc<LuaNameExpr>),
    IndexExpr(Arc<LuaIndexExpr>),
}

/// What names a member: an index expression or a table field.
#[derive(Debug)]
pub enum LuaIndexMemberExpr {
    IndexExpr(Arc<LuaIndexExpr>),
    TableField(Arc<LuaTableField>),
}

/// A name that a `local` statement declares.
#[derive(Debug, Clone, Copy, PartialEq, Eq, Structural)]
pub struct LuaLocalName {
    pub position: u32,
}

#[derive(Debug)]
pub struct LuaLocalStat {
    pub local_names: Vec<LuaLocalName>,
    pub value_exprs: Vec<LuaExpr>,
}

#[derive(Debug)]
pub struct LuaAssignStat {
    pub vars: Vec<LuaVarExpr>,
    pub exprs: Vec<LuaExpr>,
}

#[derive(Debug)]
pub struct LuaFuncStat {
    pub func_name: Option<LuaVarExpr>,
    pub closure: Option<LuaClosureExpr>,
}

#[derive(Debug, Clone, Copy)]
pub struct LuaLocalFuncStat {
    pub local_name: Option<LuaLocalName>,
    pub closure: Option<LuaClosureExpr>,
}

/// A field of a table constructor.  `table_range` is the range of the table it stands in.
#[derive(Debug)]
pub struct LuaTableField {
    pub syntax_id: LuaSyntaxId,
    pub is_assign_field: bool,
    pub field_key: Option<LuaIndexKey>,
    pub value_expr: Option<LuaExpr>,
    pub table_range: Option<TextRange>,
}

/// One operation of a `@cast` tag: `+T`, `-T`, `T` or the same with `?`.
#[derive(Debug, Clone, Copy)]
pub struct LuaDocOpType {
    pub op: Option<BinaryOperator>,
    pub is_nullable: bool,
    /// The syntax node of the type.
    pub doc_type: Option<LuaSyntaxId>,
}

/// A `@cast` tag.
#[derive(Debug)]
pub struct LuaDocTagCast {
    pub syntax_id: LuaSyntaxId,
    pub key_expr: Option<LuaExpr>,
    pub op_types: Vec<LuaDocOpType>,
}

impl Clone for LuaExpr {
    fn clone(&self) -> (res: LuaExpr)
        ensures
            res == *self,
    {
        match self {
            LuaExpr::NameExpr(e) => LuaExpr::NameExpr(e.clone()),
            LuaExpr::CallExpr(e) => LuaExpr::CallExpr(e.clone()),
            LuaExpr::IndexExpr(e) => LuaExpr::IndexExpr(e.clone()),
            LuaExpr::TableExpr(e) => LuaExpr::TableExpr(*e),
            LuaExpr::LiteralExpr(e) => LuaExpr::LiteralExpr(*e),
            LuaExpr::ClosureExpr(e) => LuaExpr::ClosureExpr(*e),
            LuaExpr::BinaryExpr(e) => LuaExpr::BinaryExpr(e.clone()),
            LuaExpr::UnaryExpr(e) => LuaExpr::UnaryExpr(e.clone()),
            LuaExpr::ParenExpr(e) => LuaExpr::ParenExpr(e.clone()),
        }
    }
}

impl Clone for LuaVarExpr {
    fn clone(&self) -> (res: LuaVarExpr)
        ensures
            res == *self,
    {
        match self {
            LuaVarExpr::NameExpr(e) => LuaVarExpr::NameExpr(e.clone()),
            LuaVarExpr::IndexExpr(e) => LuaVarExpr::IndexExpr(e.clone()),
        }
    }
}

impl Clone for LuaIndexMemberExpr {
    fn clone(&self) -> (res: LuaIndexMemberExpr)
        ensures
            res == *self,
    {
        match self {
            LuaIndexMemberExpr::IndexExpr(e) => LuaIndexMemberExpr::IndexExpr(e.clone()),
            LuaIndexMemberExpr::TableField(f) => LuaIndexMemberExpr::TableField(f.clone()),
        }
    }
}

impl LuaVarExpr {
    /// The variable as an expression.
    pub open spec fn as_expr(self) -> LuaExpr {
        match self {
            LuaVarExpr::NameExpr(e) => LuaExpr::NameExpr(e),
            LuaVarExpr::IndexExpr(e) => LuaExpr::IndexExpr(e),
        }
    }

    pub open spec fn syntax_id(self) -> LuaSyntaxId {
        match self {
            LuaVarExpr::NameExpr(e) => e.syntax_id,
            LuaVarExpr::IndexExpr(e) => e.syntax_id,
        }
    }

    /// The text of the path that the variable names, such as `a.b.c`.
    pub open spec fn access_path(self) -> Option<String> {
        match self {
            LuaVarExpr::NameExpr(e) => e.access_path,
            LuaVarExpr::IndexExpr(e) => e.access_path,
        }
    }

    /// The variable that `expr` is, where it is one.
    pub open spec fn of_expr(expr: LuaExpr) -> Option<LuaVarExpr> {
        match expr {
            LuaExpr::NameExpr(e) => Some(LuaVarExpr::NameExpr(e)),
            LuaExpr::IndexExpr(e) => Some(LuaVarExpr::IndexExpr(e)),
            _ => None,
        }
    }

    pub fn to_expr(&self) -> (expr: LuaExpr)
        ensures
            expr == self.as_expr(),
    {
        match self {
            LuaVarExpr::NameExpr(e) => LuaExpr::NameExpr(e.clone()),
            LuaVarExpr::IndexExpr(e) => LuaExpr::IndexExpr(e.clone()),
        }
    }

    pub fn get_syntax_id(&self) -> (syntax_id: LuaSyntaxId)
        ensures
            syntax_id == self.syntax_id(),
    {
        match self {
            LuaVarExpr::NameExpr(e) => e.syntax_id,
            LuaVarExpr::IndexExpr(e) => e.syntax_id,
        }
    }

    pub fn get_access_path(&self) -> (path: Option<&String>)
        ensures
            match path {
                Some(p) => self.access_path() == Some(*p),
                None => self.access_path() is None,
            },
    {
        match self {
            LuaVarExpr::NameExpr(e) => e.access_path.as_ref(),
            LuaVarExpr::IndexExpr(e) => e.access_path.as_ref(),
        }
    }

    pub fn cast(expr: &LuaExpr) -> (var: Option<LuaVarExpr>)
        ensures
            var == LuaVarExpr::of_expr(*expr),
    {
        match expr {
            LuaExpr::NameExpr(e) => Some(LuaVarExpr::NameExpr(e.clone())),
            LuaExpr::IndexExpr(e) => Some(LuaVarExpr::IndexExpr(e.clone())),
            _ => None,
        }
    }
}

/// The first value that is filed under `id`.
pub open spec fn find_node<T>(nodes: Seq<(LuaSyntaxId, T)>, id: LuaSyntaxId) -> Option<T>
    decreases nodes.len(),
{
    if nodes.len() == 0 {
        None
    } else if nodes[0].0 == id {
        Some(nodes[0].1)
    } else {
        find_node(nodes.drop_first(), id)
    }
}

fn lookup_node<T>(nodes: &Vec<(LuaSyntaxId, T)>, id: LuaSyntaxId) -> (node: Option<&T>)
    ensures
        match node {
            Some(n) => find_node(nodes@, id) == Some(*n),
            None => find_node(nodes@, id) is None,
        },
{
    let mut i: usize = 0;
    assert(nodes@.skip(0) =~= nodes@);
    while i < nodes.len()
        invariant
            i <= nodes@.len(),
            find_node(nodes@, id) == find_node(nodes@.skip(i as int), id),
        decreases nodes@.len() - i,
    {
        assert(nodes@.skip(i as int).drop_first() =~= nodes@.skip(i + 1));
        if nodes[i].0 == id {
            return Some(&nodes[i].1);
        }
        i += 1;
    }
    None
}

/// The syntax tree of a file: the nodes that flow nodes and tags point to, by their ids.
#[derive(Debug)]
pub struct LuaChunk {
    pub exprs: Vec<(LuaSyntaxId, LuaExpr)>,
    pub assign_stats: Vec<(LuaSyntaxId, Arc<LuaAssignStat>)>,
    pub func_stats: Vec<(LuaSyntaxId, Arc<LuaFuncStat>)>,
    pub tag_casts: Vec<(LuaSyntaxId, Arc<LuaDocTagCast>)>,
    pub op_types: Vec<(LuaSyntaxId, LuaDocOpType)>,
}

impl LuaChunk {
    pub fn find_expr(&self, id: LuaSyntaxId) -> (expr: Option<LuaExpr>)
        ensures
            expr == find_node(self.exprs@, id),
    {
        match lookup_node(&self.exprs, id) {
            Some(e) => Some(e.clone()),
            None => None,
        }
    }

    pub fn find_assign_stat(&self, id: LuaSyntaxId) -> (stat: Option<Arc<LuaAssignStat>>)
        ensures
            stat == find_node(self.assign_stats@, id),
    {
        match lookup_node(&self.assign_stats, id) {
            Some(s) => Some(s.clone()),
            None => None,
        }
    }

    pub fn find_func_stat(&self, id: LuaSyntaxId) -> (stat: Option<Arc<LuaFuncStat>>)
        ensures
            stat == find_node(self.func_stats@, id),
    {
        match lookup_node(&self.func_stats, id) {
            Some(s) => Some(s.clone()),
            None => None,
        }
    }

    pub fn find_tag_cast(&self, id: LuaSyntaxId) -> (tag: Option<Arc<LuaDocTagCast>>)
        ensures
            tag == find_node(self.tag_casts@, id),
    {
        match lookup_node(&self.tag_casts, id) {
            Some(t) => Some(t.clone()),
            None => None,
        }
    }

    pub fn find_op_type(&self, id: LuaSyntaxId) -> (op: Option<LuaDocOpType>)
        ensures
            op == find_node(self.op_types@, id),
    {
        match lookup_node(&self.op_types, id) {
            Some(op) => Some(*op),
            None => None,
        }
    }
}

} // verus!
