//! Identifiers and source positions.
//!
//! Names that are only ever compared (type names, access paths) are interned, so an identifier
//! is a handful of integers.

use vstd::prelude::*;

verus! {

/// A file of the workspace.
#[derive(Debug, Clone, Copy, PartialEq, Eq, Hash, Structural)]
pub struct FileId {
    pub id: u32,
}

impl FileId {
    pub fn new(id: u32) -> (file_id: FileId)
        ensures
            file_id.id == id,
    {
        FileId { id }
    }
}

/// A node of a flow tree.
#[derive(Debug, Clone, Copy, PartialEq, Eq, Hash, Structural)]
pub struct FlowId(pub u32);

/// A half-open range of byte offsets in a file.
#[derive(Debug, Clone, Copy, PartialEq, Eq, Hash, Structural)]
pub struct TextRange {
    pub start: u32,
    pub end: u32,
}

/// A syntax node: what kind of node it is and where it stands.
#[derive(Debug, Clone, Copy, PartialEq, Eq, Hash, Structural)]
pub struct LuaSyntaxId {
    pub kind: u16,
    pub range: TextRange,
}

/// A value together with the file it belongs to.
#[derive(Debug, PartialEq, Eq, Hash)]
pub struct InFiled<T> {
    pub file_id: FileId,
    pub value: T,
}

impl<T: Copy> Copy for InFiled<T> {

}

impl<T: Copy> Clone for InFiled<T> {
    fn clone(&self) -> (res: InFiled<T>)
        ensures
            res == *self,
    {
        *self
    }
}

impl<T> InFiled<T> {
    pub fn new(file_id: FileId, value: T) -> (in_filed: InFiled<T>)
        ensures
            in_filed == (InFiled { file_id, value }),
    {
        InFiled { file_id, value }
    }
}

/// A declaration, named by the position of its name.
#[derive(Debug, Clone, Copy, PartialEq, Eq, Hash, Structural)]
pub struct LuaDeclId {
    pub file_id: FileId,
    pub position: u32,
}

impl LuaDeclId {
    pub fn new(file_id: FileId, position: u32) -> (decl_id: LuaDeclId)
        ensures
            decl_id == (LuaDeclId { file_id, position }),
    {
        LuaDeclId { file_id, position }
    }
}

/// A member of a table or a class, named by the syntax node that defines it.
#[derive(Debug, Clone, Copy, PartialEq, Eq, Hash, Structural)]
pub struct LuaMemberId {
    pub id: LuaSyntaxId,
    pub file_id: FileId,
}

impl LuaMemberId {
    pub fn new(id: LuaSyntaxId, file_id: FileId) -> (member_id: LuaMemberId)
        ensures
            member_id == (LuaMemberId { id, file_id }),
    {
        LuaMemberId { id, file_id }
    }
}

/// A function signature, named by the position of its closure.
#[derive(Debug, Clone, Copy, PartialEq, Eq, Hash, Structural)]
pub struct LuaSignatureId {
    pub file_id: FileId,
    pub position: u32,
}

/// A declared type, by its interned name.
#[derive(Debug, Clone, Copy, PartialEq, Eq, Hash, Structural)]
pub struct LuaTypeDeclId {
    pub name: u32,
}

/// What a variable expression refers to.
#[derive(Debug, Clone, Copy, PartialEq, Eq, Hash, Structural)]
pub enum VarRefId {
    /// A local variable or a parameter.
    VarRef(LuaDeclId),
    /// `self`, a global or an access path.  `path` is the interned path text and `root` the
    /// declaration that the path starts from, where one is known.
    Path { root: Option<LuaDeclId>, position: u32, path: u32 },
}

impl VarRefId {
    /// The position that the reference is declared at.
    pub open spec fn position(self) -> u32 {
        match self {
            VarRefId::VarRef(decl_id) => decl_id.position,
            VarRefId::Path { position, .. } => position,
        }
    }

    /// The declaration behind the reference.
    pub open spec fn decl_id(self) -> Option<LuaDeclId> {
        match self {
            VarRefId::VarRef(decl_id) => Some(decl_id),
            VarRefId::Path { root, .. } => root,
        }
    }

    pub fn get_position(&self) -> (position: u32)
        ensures
            position == self.position(),
    {
        match self {
            VarRefId::VarRef(decl_id) => decl_id.position,
            VarRefId::Path { position, .. } => *position,
        }
    }

    pub fn get_decl_id_ref(&self) -> (decl_id: Option<LuaDeclId>)
        ensures
            decl_id == self.decl_id(),
    {
        match self {
            VarRefId::VarRef(decl_id) => Some(*decl_id),
            VarRefId::Path { root, .. } => *root,
        }
    }
}

/// What the type of a syntactic entity is bound to.
#[derive(Debug, Clone, Copy, PartialEq, Eq, Hash, Structural)]
pub enum LuaTypeOwner {
    Decl(LuaDeclId),
    Member(LuaMemberId),
    SyntaxId { file_id: FileId, syntax_id: LuaSyntaxId },
}

} // verus!
