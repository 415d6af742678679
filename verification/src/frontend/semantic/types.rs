use crate::frontend::resolver::ItemId;
use crate::frontend::text::{decimal, push_decimal};
use vstd::prelude::*;
use vstd::string::StringExecFns;

verus! {

/// Canonical builtin semantic types.
#[derive(Debug, Clone, Copy, PartialEq, Eq, Structural)]
pub enum BuiltinType {
    Bool,
    Char,
    String,
    I8,
    I16,
    I32,
    I64,
    U8,
    U16,
    U32,
    U64,
    ISize,
    USize,
    F32,
    F64,
    Void,
    Never,
}

/// Canonical mutability surface used by semantic types.
#[derive(Debug, Clone, Copy, PartialEq, Eq, Structural)]
pub enum Mutability {
    Const,
    Mut,
}

/// Canonical kind for item-backed nominal types.
#[derive(Debug, Clone, Copy, PartialEq, Eq, Structural)]
pub enum NamedTypeKind {
    Struct,
    Enum,
    Protocol,
}

/// Canonical semantic type model used by later analysis phases.
#[derive(Debug, Eq)]
pub enum Type {
    Builtin(BuiltinType),
    Named { item_id: ItemId, kind: NamedTypeKind },
    Pointer { pointee: Box<Type>, mutability: Mutability },
    Error,
}

impl PartialEq for Type {
    fn eq(&self, other: &Self) -> (r: bool)
        decreases self,
    {
        match (self, other) {
            (Type::Builtin(a), Type::Builtin(b)) => *a == *b,
            (
                Type::Named { item_id: a_item, kind: a_kind },
                Type::Named { item_id: b_item, kind: b_kind },
            ) => *a_item == *b_item && *a_kind == *b_kind,
            (
                Type::Pointer { pointee: a_pointee, mutability: a_mutability },
                Type::Pointer { pointee: b_pointee, mutability: b_mutability },
            ) => *a_mutability == *b_mutability && (**a_pointee).eq(&**b_pointee),
            (Type::Error, Type::Error) => true,
            _ => false,
        }
    }
}

impl vstd::std_specs::cmp::PartialEqSpecImpl for Type {
    open spec fn obeys_eq_spec() -> bool {
        true
    }

    open spec fn eq_spec(&self, other: &Self) -> bool {
        *self == *other
    }
}

impl Clone for Type {
    fn clone(&self) -> (r: Self)
        ensures
            r == *self,
        decreases self,
    {
        match self {
            Type::Builtin(b) => Type::Builtin(*b),
            Type::Named { item_id, kind } => Type::Named { item_id: *item_id, kind: *kind },
            Type::Pointer { pointee, mutability } => Type::Pointer {
                pointee: Box::new((**pointee).clone()),
                mutability: *mutability,
            },
            Type::Error => Type::Error,
        }
    }
}

impl Type {
    /// The builtin type `builtin`.
    pub fn builtin(builtin: BuiltinType) -> (t: Self)
        ensures
            t == Type::Builtin(builtin),
    {
        Type::Builtin(builtin)
    }

    /// The nominal type of item `item_id`.
    pub fn named(item_id: ItemId, kind: NamedTypeKind) -> (t: Self)
        ensures
            t == (Type::Named { item_id, kind }),
    {
        Type::Named { item_id, kind }
    }

    /// A pointer to `pointee`.
    pub fn pointer(pointee: Type, mutability: Mutability) -> (t: Self)
        ensures
            t == (Type::Pointer { pointee: Box::new(pointee), mutability }),
    {
        Type::Pointer { pointee: Box::new(pointee), mutability }
    }

    /// The builtin `void` type.
    pub fn void() -> (t: Self)
        ensures
            t == Type::Builtin(BuiltinType::Void),
    {
        Type::Builtin(BuiltinType::Void)
    }

    /// The error type.
    pub fn error() -> (t: Self)
        ensures
            t == Type::Error,
    {
        Type::Error
    }

    /// True for the error type.
    pub fn is_error(&self) -> (b: bool)
        ensures
            b == (*self is Error),
    {
        match self {
            Type::Error => true,
            _ => false,
        }
    }
}


/// The name of a builtin type.
pub open spec fn builtin_text(b: BuiltinType) -> Seq<char> {
    match b {
        BuiltinType::Bool => "bool"@,
        BuiltinType::Char => "char"@,
        BuiltinType::String => "string"@,
        BuiltinType::I8 => "i8"@,
        BuiltinType::I16 => "i16"@,
        BuiltinType::I32 => "i32"@,
        BuiltinType::I64 => "i64"@,
        BuiltinType::U8 => "u8"@,
        BuiltinType::U16 => "u16"@,
        BuiltinType::U32 => "u32"@,
        BuiltinType::U64 => "u64"@,
        BuiltinType::ISize => "isize"@,
        BuiltinType::USize => "usize"@,
        BuiltinType::F32 => "f32"@,
        BuiltinType::F64 => "f64"@,
        BuiltinType::Void => "void"@,
        BuiltinType::Never => "never"@,
    }
}

/// How a type is written: a builtin's name, `struct#`, `enum#` or
/// `protocol#` and the item id, `*` or `*mut ` before a pointee, `<error>`.
pub open spec fn type_text(t: Type) -> Seq<char>
    decreases t,
{
    match t {
        Type::Builtin(b) => builtin_text(b),
        Type::Named { item_id, kind } => (match kind {
            NamedTypeKind::Struct => "struct#"@,
            NamedTypeKind::Enum => "enum#"@,
            NamedTypeKind::Protocol => "protocol#"@,
        }) + decimal(item_id.0 as nat),
        Type::Pointer { pointee, mutability } => (match mutability {
            Mutability::Const => "*"@,
            Mutability::Mut => "*mut "@,
        }) + type_text(*pointee),
        Type::Error => "<error>"@,
    }
}

impl BuiltinType {
    /// The name of this builtin type.
    pub fn name(&self) -> (r: &'static str)
        ensures
            r@ == builtin_text(*self),
    {
        match self {
            BuiltinType::Bool => "bool",
            BuiltinType::Char => "char",
            BuiltinType::String => "string",
            BuiltinType::I8 => "i8",
            BuiltinType::I16 => "i16",
            BuiltinType::I32 => "i32",
            BuiltinType::I64 => "i64",
            BuiltinType::U8 => "u8",
            BuiltinType::U16 => "u16",
            BuiltinType::U32 => "u32",
            BuiltinType::U64 => "u64",
            BuiltinType::ISize => "isize",
            BuiltinType::USize => "usize",
            BuiltinType::F32 => "f32",
            BuiltinType::F64 => "f64",
            BuiltinType::Void => "void",
            BuiltinType::Never => "never",
        }
    }
}

impl Mutability {
    /// How the mutability is written.
    pub fn name(&self) -> (r: &'static str)
        ensures
            r@ == (match *self {
                Mutability::Const => "const"@,
                Mutability::Mut => "mut"@,
            }),
    {
        match self {
            Mutability::Const => "const",
            Mutability::Mut => "mut",
        }
    }
}

impl Type {
    /// Appends how this type is written (see [`type_text`]).
    pub fn write_text(&self, out: &mut String)
        ensures
            final(out)@ == old(out)@ + type_text(*self),
        decreases self,
    {
        match self {
            Type::Builtin(b) => out.append(b.name()),
            Type::Named { item_id, kind } => {
                out.append(match kind {
                    NamedTypeKind::Struct => "struct#",
                    NamedTypeKind::Enum => "enum#",
                    NamedTypeKind::Protocol => "protocol#",
                });
                push_decimal(out, item_id.0);
                proof {
                    assert(out@ =~= old(out)@ + type_text(*self));
                }
            },
            Type::Pointer { pointee, mutability } => {
                out.append(match mutability {
                    Mutability::Const => "*",
                    Mutability::Mut => "*mut ",
                });
                (**pointee).write_text(out);
                proof {
                    assert(out@ =~= old(out)@ + type_text(*self));
                }
            },
            Type::Error => out.append("<error>"),
        }
    }

    /// How this type is written (see [`type_text`]).
    pub fn to_text(&self) -> (r: String)
        ensures
            r@ == type_text(*self),
    {
        let mut out = String::new();
        self.write_text(&mut out);
        proof {
            assert(out@ =~= type_text(*self));
        }
        out
    }
}

} // verus!
