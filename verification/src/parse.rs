//! The generator front end: folding foreign declarations into namespaces.
//!
//! The external traversal of foreign header declarations reports each node as
//! a plain-value snapshot: a cursor tree of namespaces, typedef declarations
//! and record declarations, and for every type reference a [`TypeNode`] tree.
//! This module holds the decision logic of that front end, verified over
//! those snapshots: the fixed mapping from foreign primitive and compound
//! types to this library's type descriptors, the flattening of record
//! declarations into fields, base-interface names and virtual methods, and
//! the folding of a declaration tree into a namespace tree.  The one error —
//! an unrecognized type construct — is reported with its source location.

use vstd::prelude::*;

verus! {

/// A namespace of the foreign declarations: nested namespaces by name, in
/// ascending name order (one entry per name), plus the typedefs and
/// records declared in it.
#[derive(Debug)]
pub struct Namespace {
    /// Child namespaces, sorted by name as name-keyed storage iterates
    /// them; a repeated namespace name folds into the entry already present.
    pub children: Vec<NamespaceEntry>,
    /// Typedefs declared directly in this namespace, in order.
    pub typedefs: Vec<Typedef>,
    /// Records declared directly in this namespace, in order.
    pub records: Vec<Record>,
}

/// One named child namespace.
#[derive(Debug)]
pub struct NamespaceEntry {
    /// The child namespace's name.
    pub name: String,
    /// The child namespace's contents.
    pub namespace: Namespace,
}

/// A typedef: a name for a foreign type.
#[derive(PartialEq, Debug)]
pub struct Typedef {
    /// The declared name.
    pub name: String,
    /// The named type.
    pub type_: Type,
}

/// Whether a record is a struct or a union.
#[derive(Copy, Clone, Eq, PartialEq, Structural, Debug)]
pub enum RecordKind {
    /// A struct (or class) record.
    Struct,
    /// A union record.
    Union,
}

/// A foreign record: its fields, base-interface names, and virtual methods.
#[derive(PartialEq, Debug)]
pub struct Record {
    /// The record's name; empty for an unnamed record.
    pub name: String,
    /// Struct or union.
    pub kind: RecordKind,
    /// The data fields, in declaration order.
    pub fields: Vec<Field>,
    /// The names of the base records, in declaration order.
    pub bases: Vec<String>,
    /// The virtual methods, in declaration order.
    pub virtual_methods: Vec<Method>,
}

/// One data field of a record.
#[derive(PartialEq, Debug)]
pub struct Field {
    /// The field's name.
    pub name: String,
    /// The field's type.
    pub type_: Type,
}

/// One virtual method of a record.
#[derive(PartialEq, Debug)]
pub struct Method {
    /// The method's name.
    pub name: String,
    /// The method's arguments, in order.
    pub arguments: Vec<Argument>,
    /// The method's result type.
    pub result_type: Type,
}

/// One argument of a method.
#[derive(PartialEq, Debug)]
pub struct Argument {
    /// The argument's name.
    pub name: String,
    /// The argument's type.
    pub type_: Type,
}

/// A foreign type, mapped to a fixed-width, pointer, reference, record,
/// typedef or array descriptor.
#[derive(PartialEq, Debug)]
pub enum Type {
    /// The void type.
    Void,
    /// The boolean type.
    Bool,
    /// The character type, of either signedness.
    Char,
    /// Unsigned char.
    UChar,
    /// Unsigned short.
    UShort,
    /// Unsigned int.
    UInt,
    /// Unsigned long.
    ULong,
    /// Unsigned long long.
    ULongLong,
    /// Signed char.
    SChar,
    /// Signed short.
    Short,
    /// Signed int.
    Int,
    /// Signed long.
    Long,
    /// Signed long long.
    LongLong,
    /// An unsigned integer of the given byte width.
    Unsigned(usize),
    /// A signed integer of the given byte width.
    Signed(usize),
    /// Single-precision floating point.
    Float,
    /// Double-precision floating point.
    Double,
    /// A pointer.
    Pointer {
        /// Whether the pointee is const.
        is_const: bool,
        /// The pointee's type.
        pointee: Box<Type>,
    },
    /// An lvalue reference.
    Reference {
        /// Whether the pointee is const.
        is_const: bool,
        /// The pointee's type.
        pointee: Box<Type>,
    },
    /// A named record, by name.
    Record(String),
    /// An unnamed record, carried inline.
    UnnamedRecord(Record),
    /// A typedef, by name.
    Typedef(String),
    /// A constant-size array of the element type.
    Array(usize, Box<Type>),
}

/// The one error of this front end: an unrecognized foreign type construct,
/// reported with its source location.
#[derive(PartialEq, Debug)]
pub struct ParseError {
    /// The source location of the offending construct.
    pub location: String,
    /// The name of the unrecognized type kind.
    pub kind: String,
}

/// A plain-value snapshot of one foreign type reference, as the external
/// traversal reports it.
#[derive(PartialEq, Debug)]
pub enum TypeNode {
    /// The void type.
    Void,
    /// The boolean type.
    Bool,
    /// The character type, unsigned flavour.
    CharU,
    /// The character type, signed flavour.
    CharS,
    /// Unsigned char.
    UChar,
    /// Unsigned short.
    UShort,
    /// Unsigned int.
    UInt,
    /// Signed char.
    SChar,
    /// A 16-bit character.
    Char16,
    /// A wide character, with its byte width.
    WChar {
        /// The width in bytes.
        size: usize,
    },
    /// Unsigned long.
    ULong,
    /// Unsigned long long.
    ULongLong,
    /// Signed short.
    Short,
    /// Signed int.
    Int,
    /// Signed long.
    Long,
    /// Signed long long.
    LongLong,
    /// Single-precision floating point.
    Float,
    /// Double-precision floating point.
    Double,
    /// A pointer.
    Pointer {
        /// Whether the pointee is const.
        pointee_const: bool,
        /// The pointee's type.
        pointee: Box<TypeNode>,
    },
    /// An lvalue reference.
    LValueReference {
        /// Whether the pointee is const.
        pointee_const: bool,
        /// The pointee's type.
        pointee: Box<TypeNode>,
    },
    /// A record type: its declared name (empty when unnamed) and its
    /// declaration.
    Record {
        /// The record's name; empty for an unnamed record.
        name: String,
        /// The record's declaration.
        decl: Box<RecordNode>,
    },
    /// An enum type, reported as its underlying integer type.
    Enum {
        /// The underlying integer type.
        underlying: Box<TypeNode>,
    },
    /// A typedef reference.
    Typedef {
        /// The typedef's name.
        name: String,
        /// Whether the typedef is declared in a system header.
        in_system_header: bool,
        /// The underlying type.
        underlying: Box<TypeNode>,
    },
    /// A constant-size array.
    ConstantArray {
        /// The element count.
        size: usize,
        /// The element type.
        element: Box<TypeNode>,
    },
    /// An elaborated type, wrapping the named type.
    Elaborated {
        /// The named type.
        named: Box<TypeNode>,
    },
    /// A type construct this front end does not handle.
    Other {
        /// The source location of the construct.
        location: String,
        /// The name of the unhandled kind.
        kind: String,
    },
}

/// The declaration kind of a record.
#[derive(Copy, Clone, Eq, PartialEq, Structural, Debug)]
pub enum DeclKind {
    /// A struct declaration.
    Struct,
    /// A class declaration.
    Class,
    /// A union declaration.
    Union,
}

/// A snapshot of one record declaration: name, kind, and the declaration's
/// children in order.
#[derive(PartialEq, Debug)]
pub struct RecordNode {
    /// The record's name; empty for an unnamed record.
    pub name: String,
    /// Struct, class or union.
    pub kind: DeclKind,
    /// The declaration's children, in order.
    pub children: Vec<RecordChild>,
}

/// One child of a record declaration.
#[derive(PartialEq, Debug)]
pub enum RecordChild {
    /// A data field (an anonymous union member is reported this way too).
    Field {
        /// The field's name.
        name: String,
        /// The field's type.
        ty: TypeNode,
    },
    /// A method declaration.
    Method {
        /// Whether the method is virtual; only virtual methods are kept.
        is_virtual: bool,
        /// The method's name.
        name: String,
        /// The arguments, in order.
        arguments: Vec<ArgumentNode>,
        /// The result type.
        result: TypeNode,
    },
    /// A base-record specifier.
    Base {
        /// The base record's name.
        name: String,
    },
    /// Any other child, ignored.
    Other,
}

/// A snapshot of one method argument.
#[derive(PartialEq, Debug)]
pub struct ArgumentNode {
    /// The argument's name.
    pub name: String,
    /// The argument's type.
    pub ty: TypeNode,
}

/// The record kind a declaration kind maps to: classes are structs.
pub open spec fn record_kind_spec(k: DeclKind) -> RecordKind {
    match k {
        DeclKind::Struct => RecordKind::Struct,
        DeclKind::Class => RecordKind::Struct,
        DeclKind::Union => RecordKind::Union,
    }
}

/// The first unrecognized construct met while mapping the type snapshot
/// `t`, in evaluation order, if any.
pub open spec fn type_error_spec(t: TypeNode) -> Option<ParseError>
    decreases t, 1int, 0int,
{
    match t {
        TypeNode::Pointer { pointee, .. } => type_error_spec(*pointee),
        TypeNode::LValueReference { pointee, .. } => type_error_spec(*pointee),
        TypeNode::Record { name, decl } => {
            if name@.len() == 0 {
                children_error_spec(decl.children@, 0)
            } else {
                None
            }
        },
        TypeNode::Enum { underlying } => type_error_spec(*underlying),
        TypeNode::Typedef { in_system_header, underlying, .. } => {
            if in_system_header {
                type_error_spec(*underlying)
            } else {
                None
            }
        },
        TypeNode::ConstantArray { element, .. } => type_error_spec(*element),
        TypeNode::Elaborated { named } => type_error_spec(*named),
        TypeNode::Other { location, kind } => Some(ParseError { location, kind }),
        _ => None,
    }
}

/// The first error met while collecting record items from `children[i..]`.
pub open spec fn children_error_spec(children: Seq<RecordChild>, i: int) -> Option<ParseError>
    decreases children, 0int, children.len() - i,
{
    if i < 0 || i >= children.len() {
        None
    } else {
        let head = match children[i] {
            RecordChild::Field { ty, .. } => type_error_spec(ty),
            RecordChild::Method { is_virtual, arguments, result, .. } => {
                if is_virtual {
                    match args_error_spec(arguments@, 0) {
                        Some(e) => Some(e),
                        None => type_error_spec(result),
                    }
                } else {
                    None
                }
            },
            _ => None,
        };
        match head {
            Some(e) => Some(e),
            None => children_error_spec(children, i + 1),
        }
    }
}

/// The first error met while mapping the argument snapshots `args[i..]`.
pub open spec fn args_error_spec(args: Seq<ArgumentNode>, i: int) -> Option<ParseError>
    decreases args, 0int, args.len() - i,
{
    if i < 0 || i >= args.len() {
        None
    } else {
        match type_error_spec(args[i].ty) {
            Some(e) => Some(e),
            None => args_error_spec(args, i + 1),
        }
    }
}

/// Relates a type snapshot to the type descriptor it maps to: the fixed
/// mapping from foreign primitive and compound types, with enums read as
/// their underlying integer type and system-header typedefs read through.
pub open spec fn type_maps_to(t: TypeNode, r: Type) -> bool
    decreases t, 1int, 0int,
{
    match t {
        TypeNode::Void => r == Type::Void,
        TypeNode::Bool => r == Type::Bool,
        TypeNode::CharU => r == Type::Char,
        TypeNode::CharS => r == Type::Char,
        TypeNode::UChar => r == Type::UChar,
        TypeNode::UShort => r == Type::UShort,
        TypeNode::UInt => r == Type::UInt,
        TypeNode::SChar => r == Type::SChar,
        TypeNode::Char16 => r == Type::Short,
        TypeNode::WChar { size } => r == Type::Unsigned(size),
        TypeNode::ULong => r == Type::ULong,
        TypeNode::ULongLong => r == Type::ULongLong,
        TypeNode::Short => r == Type::Short,
        TypeNode::Int => r == Type::Int,
        TypeNode::Long => r == Type::Long,
        TypeNode::LongLong => r == Type::LongLong,
        TypeNode::Float => r == Type::Float,
        TypeNode::Double => r == Type::Double,
        TypeNode::Pointer { pointee_const, pointee } => match r {
            Type::Pointer { is_const, pointee: rp } => is_const == pointee_const
                && type_maps_to(*pointee, *rp),
            _ => false,
        },
        TypeNode::LValueReference { pointee_const, pointee } => match r {
            Type::Reference { is_const, pointee: rp } => is_const == pointee_const
                && type_maps_to(*pointee, *rp),
            _ => false,
        },
        TypeNode::Record { name, decl } => {
            if name@.len() == 0 {
                match r {
                    Type::UnnamedRecord(rec) => record_maps_to(*decl, rec),
                    _ => false,
                }
            } else {
                r == Type::Record(name)
            }
        },
        TypeNode::Enum { underlying } => type_maps_to(*underlying, r),
        TypeNode::Typedef { name, in_system_header, underlying } => {
            if in_system_header {
                type_maps_to(*underlying, r)
            } else {
                r == Type::Typedef(name)
            }
        },
        TypeNode::ConstantArray { size, element } => match r {
            Type::Array(n, el) => n == size && type_maps_to(*element, *el),
            _ => false,
        },
        TypeNode::Elaborated { named } => type_maps_to(*named, r),
        TypeNode::Other { .. } => false,
    }
}

/// Relates a record declaration snapshot to the record built from it.
pub open spec fn record_maps_to(rn: RecordNode, r: Record) -> bool
    decreases rn, 1int, 0int,
{
    &&& r.name == rn.name
    &&& r.kind == record_kind_spec(rn.kind)
    &&& children_map_to(rn.children@, 0, r.fields@, r.bases@, r.virtual_methods@)
}

/// Relates the record children `children[i..]` to the fields, base names
/// and virtual methods collected from them, each group in declaration
/// order: data fields (anonymous unions included) become fields, virtual
/// methods become methods, base specifiers contribute their names, and
/// everything else is ignored.
pub open spec fn children_map_to(
    children: Seq<RecordChild>,
    i: int,
    fields: Seq<Field>,
    bases: Seq<String>,
    methods: Seq<Method>,
) -> bool
    decreases children, 0int, children.len() - i,
{
    if i < 0 || i >= children.len() {
        fields.len() == 0 && bases.len() == 0 && methods.len() == 0
    } else {
        match children[i] {
            RecordChild::Field { name, ty } => {
                &&& fields.len() > 0
                &&& fields[0].name == name
                &&& type_maps_to(ty, fields[0].type_)
                &&& children_map_to(children, i + 1, fields.drop_first(), bases, methods)
            },
            RecordChild::Method { is_virtual, name, arguments, result } => {
                if is_virtual {
                    &&& methods.len() > 0
                    &&& methods[0].name == name
                    &&& args_map_to(arguments@, 0, methods[0].arguments@)
                    &&& type_maps_to(result, methods[0].result_type)
                    &&& children_map_to(children, i + 1, fields, bases, methods.drop_first())
                } else {
                    children_map_to(children, i + 1, fields, bases, methods)
                }
            },
            RecordChild::Base { name } => {
                &&& bases.len() > 0
                &&& bases[0] == name
                &&& children_map_to(children, i + 1, fields, bases.drop_first(), methods)
            },
            RecordChild::Other => children_map_to(children, i + 1, fields, bases, methods),
        }
    }
}

/// Relates the argument snapshots `args[i..]` to the arguments built from
/// them, in order.
pub open spec fn args_map_to(args: Seq<ArgumentNode>, i: int, out: Seq<Argument>) -> bool
    decreases args, 0int, args.len() - i,
{
    if i < 0 || i >= args.len() {
        out.len() == 0
    } else {
        &&& out.len() > 0
        &&& out[0].name == args[i].name
        &&& type_maps_to(args[i].ty, out[0].type_)
        &&& args_map_to(args, i + 1, out.drop_first())
    }
}

/// A snapshot of one node of the foreign declaration tree.
#[derive(PartialEq, Debug)]
pub struct CursorNode {
    /// The declared name at this node.
    pub name: String,
    /// Whether the node comes from a system header; such nodes are ignored.
    pub in_system_header: bool,
    /// What the node declares.
    pub kind: CursorDecl,
    /// The node's children, in order.
    pub children: Vec<CursorNode>,
}

/// The declaration a cursor-tree node carries.
#[derive(PartialEq, Debug)]
pub enum CursorDecl {
    /// A namespace; its contents are the node's children.
    Namespace,
    /// A typedef (or type alias) declaration.
    TypedefDecl {
        /// The typedef's own name.
        name: String,
        /// The underlying type.
        underlying: TypeNode,
    },
    /// A struct, class or union declaration.
    RecordDecl {
        /// The record's declaration snapshot.
        decl: RecordNode,
        /// Whether this node is the record's definition.
        is_definition: bool,
    },
    /// Anything else, ignored.
    Other,
}

/// Marks a namespace value as the witness of one folding step; the
/// quantifiers over intermediate namespaces below trigger on it.
pub open spec fn ns_witness(ns: Namespace) -> bool {
    true
}

/// Whether the skip list holds `name`.
pub open spec fn skip_contains(skip: Seq<String>, name: Seq<char>) -> bool {
    exists|j: int| 0 <= j < skip.len() && skip[j]@ == name
}

/// A namespace with no children, typedefs or records.
pub open spec fn is_empty_ns(ns: Namespace) -> bool {
    &&& ns.children@.len() == 0
    &&& ns.typedefs@.len() == 0
    &&& ns.records@.len() == 0
}

/// Strict lexicographic order on names, by character codepoint.  This is
/// the order name-keyed storage iterates in; for UTF-8 encoded names the
/// codepoint order and the byte-wise order of the encodings coincide.
pub open spec fn name_lt(a: Seq<char>, b: Seq<char>) -> bool
    decreases a.len(),
{
    if b.len() == 0 {
        false
    } else if a.len() == 0 {
        true
    } else if a[0] == b[0] {
        name_lt(a.drop_first(), b.drop_first())
    } else {
        (a[0] as u32) < (b[0] as u32)
    }
}

/// Distinct characters have distinct codepoints.
proof fn lemma_char_cast_distinct(a: char, b: char)
    requires
        a != b,
    ensures
        a as u32 != b as u32,
{
}

/// The order is irreflexive: no name sorts before itself.
pub proof fn lemma_name_lt_irreflexive(a: Seq<char>)
    ensures
        !name_lt(a, a),
    decreases a.len(),
{
    if a.len() > 0 {
        lemma_name_lt_irreflexive(a.drop_first());
    }
}

/// The order is total: two distinct names sort one way or the other.
pub proof fn lemma_name_lt_total(a: Seq<char>, b: Seq<char>)
    requires
        a != b,
    ensures
        name_lt(a, b) || name_lt(b, a),
    decreases a.len(),
{
    if a.len() == 0 && b.len() == 0 {
        assert(a =~= b);
    } else if a.len() > 0 && b.len() > 0 && a[0] == b[0] {
        if a.drop_first() == b.drop_first() {
            assert(a.drop_first().len() == a.len() - 1);
            assert(b.drop_first().len() == b.len() - 1);
            assert(a.len() == b.len());
            assert forall|j: int| 0 <= j < a.len() implies a[j] == b[j] by {
                if j > 0 {
                    assert(a.drop_first()[j - 1] == b.drop_first()[j - 1]);
                }
            }
            assert(a =~= b);
        }
        lemma_name_lt_total(a.drop_first(), b.drop_first());
    } else if a.len() > 0 && b.len() > 0 {
        lemma_char_cast_distinct(a[0], b[0]);
    }
}

/// The order is transitive.
pub proof fn lemma_name_lt_transitive(a: Seq<char>, b: Seq<char>, c: Seq<char>)
    requires
        name_lt(a, b),
        name_lt(b, c),
    ensures
        name_lt(a, c),
    decreases a.len(),
{
    if a.len() > 0 && b.len() > 0 && c.len() > 0 && a[0] == b[0] && b[0] == c[0] {
        lemma_name_lt_transitive(a.drop_first(), b.drop_first(), c.drop_first());
    }
}

/// When two names agree on their first `i` characters and both have an
/// `i`-th character where they differ, that character decides the order.
proof fn lemma_name_lt_at_difference(a: Seq<char>, b: Seq<char>, i: int)
    requires
        0 <= i < a.len(),
        i < b.len(),
        forall|j: int| 0 <= j < i ==> a[j] == b[j],
        a[i] != b[i],
    ensures
        name_lt(a, b) == ((a[i] as u32) < (b[i] as u32)),
    decreases i,
{
    if i > 0 {
        assert(a[0] == b[0]);
        assert(forall|j: int|
            0 <= j < i - 1 ==> a.drop_first()[j] == a[j + 1] && b.drop_first()[j] == b[j + 1]);
        lemma_name_lt_at_difference(a.drop_first(), b.drop_first(), i - 1);
        assert(a.drop_first()[i - 1] == a[i] && b.drop_first()[i - 1] == b[i]);
    }
}

/// When one name is a prefix of the other, the shorter sorts first.
proof fn lemma_name_lt_at_prefix(a: Seq<char>, b: Seq<char>, i: int)
    requires
        0 <= i,
        i == a.len() || i == b.len(),
        i <= a.len(),
        i <= b.len(),
        forall|j: int| 0 <= j < i ==> a[j] == b[j],
    ensures
        name_lt(a, b) == (a.len() < b.len()),
    decreases i,
{
    if i > 0 {
        assert(a[0] == b[0]);
        assert(forall|j: int|
            0 <= j < i - 1 ==> a.drop_first()[j] == a[j + 1] && b.drop_first()[j] == b[j + 1]);
        lemma_name_lt_at_prefix(a.drop_first(), b.drop_first(), i - 1);
    }
}

/// Decides whether `a` sorts strictly before `b`.
fn str_lt(a: &String, b: &String) -> (r: bool)
    ensures
        r == name_lt(a@, b@),
{
    let a_len = a.as_str().unicode_len();
    let b_len = b.as_str().unicode_len();
    let mut i: usize = 0;
    loop
        invariant
            a_len == a@.len(),
            b_len == b@.len(),
            i <= a_len,
            i <= b_len,
            forall|j: int| 0 <= j < i ==> a@[j] == b@[j],
        decreases a@.len() - i,
    {
        if i >= a_len || i >= b_len {
            proof {
                lemma_name_lt_at_prefix(a@, b@, i as int);
            }
            return a_len < b_len;
        }
        let ca = a.as_str().get_char(i);
        let cb = b.as_str().get_char(i);
        if ca != cb {
            proof {
                lemma_name_lt_at_difference(a@, b@, i as int);
            }
            return (ca as u32) < (cb as u32);
        }
        i += 1;
    }
}

/// Child-namespace entries stand in strictly ascending name order.
pub open spec fn sorted_child_names(entries: Seq<NamespaceEntry>) -> bool {
    forall|i: int, j: int|
        0 <= i < j < entries.len() ==> name_lt(entries[i].name@, entries[j].name@)
}

/// Strictly sorted entries bear pairwise distinct names.
pub proof fn lemma_sorted_implies_unique(entries: Seq<NamespaceEntry>)
    requires
        sorted_child_names(entries),
    ensures
        unique_child_names(entries),
{
    assert forall|i: int, j: int|
        0 <= i < j < entries.len() implies entries[i].name@ != entries[j].name@ by {
        lemma_name_lt_irreflexive(entries[i].name@);
    }
}

/// The position a fresh entry named `name` takes among sorted entries: right
/// after every entry whose name sorts before it.
pub open spec fn insert_pos_spec(entries: Seq<NamespaceEntry>, name: Seq<char>) -> int
    decreases entries.len(),
{
    if entries.len() == 0 {
        0
    } else if name_lt(name, entries[0].name@) {
        0
    } else {
        1 + insert_pos_spec(entries.drop_first(), name)
    }
}

/// For sorted entries that do not hold `name`, the insertion position splits
/// them: smaller names before it, larger ones from it on.
proof fn lemma_insert_pos_props(entries: Seq<NamespaceEntry>, name: Seq<char>)
    requires
        sorted_child_names(entries),
        forall|j: int| 0 <= j < entries.len() ==> entries[j].name@ != name,
    ensures
        0 <= insert_pos_spec(entries, name) <= entries.len(),
        forall|j: int|
            0 <= j < insert_pos_spec(entries, name) ==> name_lt(entries[j].name@, name),
        forall|j: int|
            insert_pos_spec(entries, name) <= j < entries.len() ==> name_lt(
                name,
                entries[j].name@,
            ),
    decreases entries.len(),
{
    if entries.len() > 0 {
        let rest = entries.drop_first();
        assert(forall|j: int| 0 <= j < rest.len() ==> rest[j] == entries[j + 1]);
        if name_lt(name, entries[0].name@) {
            assert forall|j: int| 0 <= j < entries.len() implies name_lt(
                name,
                entries[j].name@,
            ) by {
                if j > 0 {
                    lemma_name_lt_transitive(name, entries[0].name@, entries[j].name@);
                }
            }
        } else {
            lemma_name_lt_total(entries[0].name@, name);
            lemma_insert_pos_props(rest, name);
            let pos = insert_pos_spec(entries, name);
            assert forall|j: int| 0 <= j < pos implies name_lt(entries[j].name@, name) by {
                if j > 0 {
                    assert(rest[j - 1] == entries[j]);
                }
            }
            assert forall|j: int| pos <= j < entries.len() implies name_lt(
                name,
                entries[j].name@,
            ) by {
                assert(rest[j - 1] == entries[j]);
            }
        }
    }
}

/// Inserting a fresh name at its position keeps the entries sorted.
proof fn lemma_insert_keeps_sorted(
    entries: Seq<NamespaceEntry>,
    name: Seq<char>,
    entry: NamespaceEntry,
)
    requires
        sorted_child_names(entries),
        forall|j: int| 0 <= j < entries.len() ==> entries[j].name@ != name,
        entry.name@ == name,
    ensures
        sorted_child_names(entries.insert(insert_pos_spec(entries, name), entry)),
{
    lemma_insert_pos_props(entries, name);
    let pos = insert_pos_spec(entries, name);
    let out = entries.insert(pos, entry);
    assert forall|i: int, j: int|
        0 <= i < j < out.len() implies name_lt(out[i].name@, out[j].name@) by {
        assert(out[i] == (if i < pos {
            entries[i]
        } else if i == pos {
            entry
        } else {
            entries[i - 1]
        }));
        assert(out[j] == (if j < pos {
            entries[j]
        } else if j == pos {
            entry
        } else {
            entries[j - 1]
        }));
    }
}

/// When everything before `k` sorts before `name` and `k` is the end or
/// sorts after it, `k` is the insertion position.
proof fn lemma_insert_pos_at(entries: Seq<NamespaceEntry>, name: Seq<char>, k: int)
    requires
        0 <= k <= entries.len(),
        forall|j: int| 0 <= j < k ==> !name_lt(name, entries[j].name@),
        k < entries.len() ==> name_lt(name, entries[k].name@),
    ensures
        insert_pos_spec(entries, name) == k,
    decreases k,
{
    if k > 0 {
        let rest = entries.drop_first();
        assert(forall|j: int| 0 <= j < rest.len() ==> rest[j] == entries[j + 1]);
        lemma_insert_pos_at(rest, name, k - 1);
    }
}

/// Finds the position a fresh entry named `name` takes to keep the entries
/// sorted.
fn insert_position(entries: &Vec<NamespaceEntry>, name: &String) -> (r: usize)
    ensures
        r as int == insert_pos_spec(entries@, name@),
        r <= entries@.len(),
{
    let mut k: usize = 0;
    while k < entries.len()
        invariant
            k <= entries@.len(),
            forall|j: int| 0 <= j < k ==> !name_lt(name@, entries@[j].name@),
        decreases entries@.len() - k,
    {
        if str_lt(name, &entries[k].name) {
            proof {
                lemma_insert_pos_at(entries@, name@, k as int);
            }
            return k;
        }
        k += 1;
    }
    proof {
        lemma_insert_pos_at(entries@, name@, k as int);
    }
    k
}

/// The index of the first child namespace entry named `name`, if any.
pub open spec fn find_child_spec(entries: Seq<NamespaceEntry>, name: Seq<char>) -> Option<int>
    decreases entries.len(),
{
    if entries.len() == 0 {
        None
    } else if entries[0].name@ == name {
        Some(0int)
    } else {
        match find_child_spec(entries.drop_first(), name) {
            None => None,
            Some(i) => Some(i + 1),
        }
    }
}

/// When entry `i` is named `name` and no earlier entry is, the lookup
/// finds `i`.
proof fn lemma_find_child_at(entries: Seq<NamespaceEntry>, name: Seq<char>, i: int)
    requires
        0 <= i < entries.len(),
        entries[i].name@ == name,
        forall|j: int| 0 <= j < i ==> entries[j].name@ != name,
    ensures
        find_child_spec(entries, name) == Some(i),
    decreases i,
{
    if i > 0 {
        lemma_find_child_at(entries.drop_first(), name, i - 1);
    }
}

/// When no entry is named `name`, the lookup finds nothing.
proof fn lemma_find_child_none(entries: Seq<NamespaceEntry>, name: Seq<char>)
    requires
        forall|j: int| 0 <= j < entries.len() ==> entries[j].name@ != name,
    ensures
        find_child_spec(entries, name) is None,
    decreases entries.len(),
{
    if entries.len() > 0 {
        lemma_find_child_none(entries.drop_first(), name);
    }
}

/// Relates one visited declaration node to the namespace it folds into
/// `ns_in`: system-header and skipped nodes change nothing; a named
/// namespace node folds its children into the existing child of that name,
/// or into a fresh one inserted at its place in name order; a typedef
/// appends its mapped
/// type; a record definition appends the record (unnamed records are not
/// listed here, their definitions surfacing inline where referenced) and
/// then folds its nested declarations into the same namespace.
pub open spec fn visit_ok(
    skip: Seq<String>,
    ns_in: Namespace,
    node: CursorNode,
    ns_out: Namespace,
) -> bool
    decreases node, 1int, 0int,
{
    if node.in_system_header || skip_contains(skip, node.name@) {
        ns_out == ns_in
    } else {
        match node.kind {
            CursorDecl::Namespace => {
                if node.name@.len() == 0 {
                    ns_out == ns_in
                } else {
                    &&& ns_out.typedefs@ == ns_in.typedefs@
                    &&& ns_out.records@ == ns_in.records@
                    &&& (match find_child_spec(ns_in.children@, node.name@) {
                        Some(idx) => exists|child_out: Namespace|
                            #[trigger] ns_witness(child_out) && fold_ok(
                                skip,
                                ns_in.children@[idx].namespace,
                                node.children@,
                                0,
                                child_out,
                            ) && ns_out.children@ == ns_in.children@.update(
                                idx,
                                NamespaceEntry {
                                    name: ns_in.children@[idx].name,
                                    namespace: child_out,
                                },
                            ),
                        None => exists|child_in: Namespace, child_out: Namespace|
                            #[trigger] ns_witness(child_in) && #[trigger] ns_witness(child_out)
                                && is_empty_ns(child_in) && fold_ok(
                                skip,
                                child_in,
                                node.children@,
                                0,
                                child_out,
                            ) && ns_out.children@ == ns_in.children@.insert(
                                insert_pos_spec(ns_in.children@, node.name@),
                                NamespaceEntry { name: node.name, namespace: child_out },
                            ),
                    })
                }
            },
            CursorDecl::TypedefDecl { name, underlying } => exists|v: Type|
                {
                    &&& type_maps_to(underlying, v)
                    &&& ns_out.typedefs@ == ns_in.typedefs@.push(Typedef { name, type_: v })
                    &&& ns_out.children@ == ns_in.children@
                    &&& ns_out.records@ == ns_in.records@
                },
            CursorDecl::RecordDecl { decl, is_definition } => {
                if is_definition {
                    exists|mid: Namespace|
                        {
                            &&& #[trigger] ns_witness(mid)
                            &&& (if decl.name@.len() > 0 {
                                exists|rec: Record|
                                    {
                                        &&& record_maps_to(decl, rec)
                                        &&& mid.records@ == ns_in.records@.push(rec)
                                        &&& mid.children@ == ns_in.children@
                                        &&& mid.typedefs@ == ns_in.typedefs@
                                    }
                            } else {
                                mid == ns_in
                            })
                            &&& fold_ok(skip, mid, node.children@, 0, ns_out)
                        }
                } else {
                    ns_out == ns_in
                }
            },
            CursorDecl::Other => ns_out == ns_in,
        }
    }
}

/// Relates the visits of `children[i..]`, threaded left to right, to the
/// namespace they fold `ns_in` into.
pub open spec fn fold_ok(
    skip: Seq<String>,
    ns_in: Namespace,
    children: Seq<CursorNode>,
    i: int,
    ns_out: Namespace,
) -> bool
    decreases children, 0int, children.len() - i,
{
    if i < 0 || i >= children.len() {
        ns_out == ns_in
    } else {
        exists|mid: Namespace|
            #[trigger] ns_witness(mid) && visit_ok(skip, ns_in, children[i], mid) && fold_ok(
                skip,
                mid,
                children,
                i + 1,
                ns_out,
            )
    }
}

/// One folding step: a visit of `children[i]` composed with the fold of the
/// rest.
pub proof fn lemma_fold_ok_step(
    skip: Seq<String>,
    ns_in: Namespace,
    children: Seq<CursorNode>,
    i: int,
    mid: Namespace,
    ns_out: Namespace,
)
    requires
        0 <= i < children.len(),
        visit_ok(skip, ns_in, children[i], mid),
        fold_ok(skip, mid, children, i + 1, ns_out),
    ensures
        fold_ok(skip, ns_in, children, i, ns_out),
{
    assert(ns_witness(mid));
}

/// One child-namespace entry per name.
pub open spec fn unique_child_names(entries: Seq<NamespaceEntry>) -> bool {
    forall|i: int, j: int|
        0 <= i < j < entries.len() ==> entries[i].name@ != entries[j].name@
}

/// A successful lookup returns an in-range entry bearing the name.
proof fn lemma_find_child_some_props(entries: Seq<NamespaceEntry>, name: Seq<char>)
    requires
        find_child_spec(entries, name) is Some,
    ensures
        0 <= find_child_spec(entries, name)->Some_0 < entries.len(),
        entries[find_child_spec(entries, name)->Some_0].name@ == name,
    decreases entries.len(),
{
    if entries.len() > 0 && entries[0].name@ != name {
        lemma_find_child_some_props(entries.drop_first(), name);
    }
}

/// A lookup that finds nothing means no entry bears the name.
proof fn lemma_find_child_none_means_absent(entries: Seq<NamespaceEntry>, name: Seq<char>)
    requires
        find_child_spec(entries, name) is None,
    ensures
        forall|j: int| 0 <= j < entries.len() ==> entries[j].name@ != name,
    decreases entries.len(),
{
    if entries.len() > 0 {
        lemma_find_child_none_means_absent(entries.drop_first(), name);
        assert forall|j: int| 0 <= j < entries.len() implies entries[j].name@ != name by {
            if j > 0 {
                assert(entries.drop_first()[j - 1] == entries[j]);
            }
        }
    }
}

/// The namespace tree's invariant: at every level the child entries stand
/// in strictly ascending name order.
pub open spec fn ns_sorted(ns: Namespace) -> bool
    decreases ns,
{
    &&& sorted_child_names(ns.children@)
    &&& forall|k: int|
        0 <= k < ns.children@.len() ==> ns_sorted(#[trigger] ns.children@[k].namespace)
}

/// Visiting one declaration node keeps the namespace tree sorted at every
/// level.
pub proof fn lemma_visit_keeps_ns_sorted(
    skip: Seq<String>,
    ns_in: Namespace,
    node: CursorNode,
    ns_out: Namespace,
)
    requires
        ns_sorted(ns_in),
        visit_ok(skip, ns_in, node, ns_out),
    ensures
        ns_sorted(ns_out),
    decreases node, 1int, 0int,
{
    lemma_visit_keeps_sorted_names(skip, ns_in, node, ns_out);
    if node.in_system_header || skip_contains(skip, node.name@) {
        return ;
    }
    match node.kind {
        CursorDecl::Namespace => {
            if node.name@.len() > 0 {
                match find_child_spec(ns_in.children@, node.name@) {
                    Some(idx) => {
                        lemma_find_child_some_props(ns_in.children@, node.name@);
                        let child_out = choose|child_out: Namespace|
                            #[trigger] ns_witness(child_out) && fold_ok(
                                skip,
                                ns_in.children@[idx].namespace,
                                node.children@,
                                0,
                                child_out,
                            ) && ns_out.children@ == ns_in.children@.update(
                                idx,
                                NamespaceEntry {
                                    name: ns_in.children@[idx].name,
                                    namespace: child_out,
                                },
                            );
                        lemma_fold_keeps_ns_sorted(
                            skip,
                            ns_in.children@[idx].namespace,
                            node.children@,
                            0,
                            child_out,
                        );
                        assert forall|k: int|
                            0 <= k < ns_out.children@.len() implies ns_sorted(
                            #[trigger] ns_out.children@[k].namespace,
                        ) by {
                            if k != idx {
                                assert(ns_out.children@[k] == ns_in.children@[k]);
                            }
                        }
                    },
                    None => {
                        lemma_find_child_none_means_absent(ns_in.children@, node.name@);
                        let (child_in, child_out) = choose|
                            child_in: Namespace,
                            child_out: Namespace,
                        |
                            #[trigger] ns_witness(child_in) && #[trigger] ns_witness(child_out)
                                && is_empty_ns(child_in) && fold_ok(
                                skip,
                                child_in,
                                node.children@,
                                0,
                                child_out,
                            ) && ns_out.children@ == ns_in.children@.insert(
                                insert_pos_spec(ns_in.children@, node.name@),
                                NamespaceEntry { name: node.name, namespace: child_out },
                            );
                        assert(ns_sorted(child_in));
                        lemma_fold_keeps_ns_sorted(skip, child_in, node.children@, 0, child_out);
                        let pos = insert_pos_spec(ns_in.children@, node.name@);
                        lemma_insert_pos_props(ns_in.children@, node.name@);
                        assert forall|k: int|
                            0 <= k < ns_out.children@.len() implies ns_sorted(
                            #[trigger] ns_out.children@[k].namespace,
                        ) by {
                            if k < pos {
                                assert(ns_out.children@[k] == ns_in.children@[k]);
                            } else if k > pos {
                                assert(ns_out.children@[k] == ns_in.children@[k - 1]);
                            }
                        }
                    },
                }
            }
        },
        CursorDecl::TypedefDecl { .. } => {
            let v = choose|v: Type|
                {
                    &&& #[trigger] type_maps_to(node.kind->TypedefDecl_underlying, v)
                    &&& ns_out.typedefs@ == ns_in.typedefs@.push(
                        Typedef { name: node.kind->TypedefDecl_name, type_: v },
                    )
                    &&& ns_out.children@ == ns_in.children@
                    &&& ns_out.records@ == ns_in.records@
                };
        },
        CursorDecl::RecordDecl { decl, is_definition } => {
            if is_definition {
                let mid = choose|mid: Namespace|
                    #[trigger] ns_witness(mid) && (if decl.name@.len() > 0 {
                        exists|rec: Record|
                            {
                                &&& record_maps_to(decl, rec)
                                &&& mid.records@ == ns_in.records@.push(rec)
                                &&& mid.children@ == ns_in.children@
                                &&& mid.typedefs@ == ns_in.typedefs@
                            }
                    } else {
                        mid == ns_in
                    }) && fold_ok(skip, mid, node.children@, 0, ns_out);
                assert(ns_sorted(mid));
                lemma_fold_keeps_ns_sorted(skip, mid, node.children@, 0, ns_out);
            }
        },
        CursorDecl::Other => {},
    }
}

/// Folding a run of declaration nodes keeps the namespace tree sorted at
/// every level.
pub proof fn lemma_fold_keeps_ns_sorted(
    skip: Seq<String>,
    ns_in: Namespace,
    children: Seq<CursorNode>,
    i: int,
    ns_out: Namespace,
)
    requires
        ns_sorted(ns_in),
        fold_ok(skip, ns_in, children, i, ns_out),
    ensures
        ns_sorted(ns_out),
    decreases children, 0int, children.len() - i,
{
    if 0 <= i < children.len() {
        let mid = choose|mid: Namespace|
            #[trigger] ns_witness(mid) && visit_ok(skip, ns_in, children[i], mid) && fold_ok(
                skip,
                mid,
                children,
                i + 1,
                ns_out,
            );
        lemma_visit_keeps_ns_sorted(skip, ns_in, children[i], mid);
        lemma_fold_keeps_ns_sorted(skip, mid, children, i + 1, ns_out);
    }
}

/// Visiting one declaration node keeps the child-namespace entries sorted
/// by name.
pub proof fn lemma_visit_keeps_sorted_names(
    skip: Seq<String>,
    ns_in: Namespace,
    node: CursorNode,
    ns_out: Namespace,
)
    requires
        sorted_child_names(ns_in.children@),
        visit_ok(skip, ns_in, node, ns_out),
    ensures
        sorted_child_names(ns_out.children@),
    decreases node, 1int, 0int,
{
    if node.in_system_header || skip_contains(skip, node.name@) {
        return ;
    }
    match node.kind {
        CursorDecl::Namespace => {
            if node.name@.len() > 0 {
                match find_child_spec(ns_in.children@, node.name@) {
                    Some(idx) => {
                        lemma_find_child_some_props(ns_in.children@, node.name@);
                        let child_out = choose|child_out: Namespace|
                            #[trigger] ns_witness(child_out) && fold_ok(
                                skip,
                                ns_in.children@[idx].namespace,
                                node.children@,
                                0,
                                child_out,
                            ) && ns_out.children@ == ns_in.children@.update(
                                idx,
                                NamespaceEntry {
                                    name: ns_in.children@[idx].name,
                                    namespace: child_out,
                                },
                            );
                        assert(ns_out.children@.len() == ns_in.children@.len());
                        assert forall|k: int|
                            0 <= k < ns_out.children@.len() implies ns_out.children@[k].name@
                            == ns_in.children@[k].name@ by {
                            if k != idx {
                                assert(ns_out.children@[k] == ns_in.children@[k]);
                            }
                        }
                        assert forall|i: int, j: int|
                            0 <= i < j < ns_out.children@.len() implies name_lt(
                            ns_out.children@[i].name@,
                            ns_out.children@[j].name@,
                        ) by {
                            assert(name_lt(ns_in.children@[i].name@, ns_in.children@[j].name@));
                        }
                    },
                    None => {
                        lemma_find_child_none_means_absent(ns_in.children@, node.name@);
                        let (child_in, child_out) = choose|
                            child_in: Namespace,
                            child_out: Namespace,
                        |
                            #[trigger] ns_witness(child_in) && #[trigger] ns_witness(child_out)
                                && is_empty_ns(child_in) && fold_ok(
                                skip,
                                child_in,
                                node.children@,
                                0,
                                child_out,
                            ) && ns_out.children@ == ns_in.children@.insert(
                                insert_pos_spec(ns_in.children@, node.name@),
                                NamespaceEntry { name: node.name, namespace: child_out },
                            );
                        lemma_insert_keeps_sorted(
                            ns_in.children@,
                            node.name@,
                            NamespaceEntry { name: node.name, namespace: child_out },
                        );
                    },
                }
            }
        },
        CursorDecl::TypedefDecl { .. } => {
            let v = choose|v: Type|
                {
                    &&& #[trigger] type_maps_to(node.kind->TypedefDecl_underlying, v)
                    &&& ns_out.typedefs@ == ns_in.typedefs@.push(
                        Typedef { name: node.kind->TypedefDecl_name, type_: v },
                    )
                    &&& ns_out.children@ == ns_in.children@
                    &&& ns_out.records@ == ns_in.records@
                };
        },
        CursorDecl::RecordDecl { decl, is_definition } => {
            if is_definition {
                let mid = choose|mid: Namespace|
                    #[trigger] ns_witness(mid) && (if decl.name@.len() > 0 {
                        exists|rec: Record|
                            {
                                &&& record_maps_to(decl, rec)
                                &&& mid.records@ == ns_in.records@.push(rec)
                                &&& mid.children@ == ns_in.children@
                                &&& mid.typedefs@ == ns_in.typedefs@
                            }
                    } else {
                        mid == ns_in
                    }) && fold_ok(skip, mid, node.children@, 0, ns_out);
                assert(sorted_child_names(mid.children@));
                lemma_fold_keeps_sorted_names(skip, mid, node.children@, 0, ns_out);
            }
        },
        CursorDecl::Other => {},
    }
}

/// Folding a run of declaration nodes keeps the child-namespace entries
/// sorted by name.
pub proof fn lemma_fold_keeps_sorted_names(
    skip: Seq<String>,
    ns_in: Namespace,
    children: Seq<CursorNode>,
    i: int,
    ns_out: Namespace,
)
    requires
        sorted_child_names(ns_in.children@),
        fold_ok(skip, ns_in, children, i, ns_out),
    ensures
        sorted_child_names(ns_out.children@),
    decreases children, 0int, children.len() - i,
{
    if 0 <= i < children.len() {
        let mid = choose|mid: Namespace|
            #[trigger] ns_witness(mid) && visit_ok(skip, ns_in, children[i], mid) && fold_ok(
                skip,
                mid,
                children,
                i + 1,
                ns_out,
            );
        lemma_visit_keeps_sorted_names(skip, ns_in, children[i], mid);
        lemma_fold_keeps_sorted_names(skip, mid, children, i + 1, ns_out);
    }
}

/// The first error met while visiting one declaration node.
pub open spec fn visit_error_spec(skip: Seq<String>, node: CursorNode) -> Option<ParseError>
    decreases node, 1int, 0int,
{
    if node.in_system_header || skip_contains(skip, node.name@) {
        None
    } else {
        match node.kind {
            CursorDecl::Namespace => {
                if node.name@.len() == 0 {
                    None
                } else {
                    fold_error_spec(skip, node.children@, 0)
                }
            },
            CursorDecl::TypedefDecl { underlying, .. } => type_error_spec(underlying),
            CursorDecl::RecordDecl { decl, is_definition } => {
                if is_definition {
                    match (if decl.name@.len() > 0 {
                        children_error_spec(decl.children@, 0)
                    } else {
                        None
                    }) {
                        Some(e) => Some(e),
                        None => fold_error_spec(skip, node.children@, 0),
                    }
                } else {
                    None
                }
            },
            CursorDecl::Other => None,
        }
    }
}

/// The first error met while visiting `children[i..]`.
pub open spec fn fold_error_spec(skip: Seq<String>, children: Seq<CursorNode>, i: int) -> Option<
    ParseError,
>
    decreases children, 0int, children.len() - i,
{
    if i < 0 || i >= children.len() {
        None
    } else {
        match visit_error_spec(skip, children[i]) {
            Some(e) => Some(e),
            None => fold_error_spec(skip, children, i + 1),
        }
    }
}

impl Namespace {
    /// An empty namespace.
    pub fn new() -> (r: Namespace)
        ensures
            is_empty_ns(r),
    {
        Namespace { children: Vec::new(), typedefs: Vec::new(), records: Vec::new() }
    }

    /// Folds a whole foreign declaration tree — the children of the root
    /// cursor — into a fresh namespace, leaving out system-header
    /// declarations and everything the skip list names; or reports the
    /// first error met, with its source location.
    pub fn parse(cursor: &CursorNode, skip_list: Vec<String>) -> (r: Result<
        Namespace,
        ParseError,
    >)
        ensures
            match r {
                Ok(out) => {
                    &&& fold_error_spec(skip_list@, cursor.children@, 0) is None
                    &&& (exists|ns0: Namespace|
                        is_empty_ns(ns0) && fold_ok(skip_list@, ns0, cursor.children@, 0, out))
                    &&& ns_sorted(out)
                },
                Err(e) => fold_error_spec(skip_list@, cursor.children@, 0) == Some(e),
            },
    {
        let parser = Parser::new(skip_list);
        let ns = Namespace::new();
        let ghost ns0 = ns;
        let r = parser.visit_children(ns, &cursor.children, 0);
        proof {
            if r is Ok {
                assert(is_empty_ns(ns0) && fold_ok(
                    skip_list@,
                    ns0,
                    cursor.children@,
                    0,
                    r->Ok_0,
                ));
                assert(ns_sorted(ns0));
                lemma_fold_keeps_ns_sorted(skip_list@, ns0, cursor.children@, 0, r->Ok_0);
            }
        }
        r
    }
}

/// Finds the first child namespace entry named `name`, if any.
fn find_child(entries: &Vec<NamespaceEntry>, name: &String) -> (r: Option<usize>)
    ensures
        match find_child_spec(entries@, name@) {
            None => r is None,
            Some(i) => r is Some && r->Some_0 as int == i && 0 <= i < entries@.len()
                && entries@[i].name@ == name@,
        },
{
    let mut k: usize = 0;
    while k < entries.len()
        invariant
            k <= entries@.len(),
            forall|j: int| 0 <= j < k ==> entries@[j].name@ != name@,
        decreases entries@.len() - k,
    {
        if entries[k].name == *name {
            proof {
                lemma_find_child_at(entries@, name@, k as int);
            }
            return Some(k);
        }
        k += 1;
    }
    proof {
        lemma_find_child_none(entries@, name@);
    }
    None
}

/// The tree-walking front end: its skip list, and the verified mapping and
/// folding steps of the traversal.
pub struct Parser {
    /// Names of declarations to leave out entirely.
    pub skip_list: Vec<String>,
}

impl Parser {
    /// Builds a front end with the given skip list.
    pub fn new(skip_list: Vec<String>) -> (r: Parser)
        ensures
            r.skip_list@ == skip_list@,
    {
        Parser { skip_list }
    }

    /// Maps one foreign type snapshot to this library's type descriptor, or
    /// reports the first unrecognized construct with its location.
    pub fn parse_type(&self, t: &TypeNode) -> (r: Result<Type, ParseError>)
        ensures
            match r {
                Ok(v) => type_error_spec(*t) is None && type_maps_to(*t, v),
                Err(e) => type_error_spec(*t) == Some(e),
            },
        decreases *t, 1int, 0int,
    {
        match t {
            TypeNode::Void => Ok(Type::Void),
            TypeNode::Bool => Ok(Type::Bool),
            TypeNode::CharU => Ok(Type::Char),
            TypeNode::CharS => Ok(Type::Char),
            TypeNode::UChar => Ok(Type::UChar),
            TypeNode::UShort => Ok(Type::UShort),
            TypeNode::UInt => Ok(Type::UInt),
            TypeNode::SChar => Ok(Type::SChar),
            TypeNode::Char16 => Ok(Type::Short),
            TypeNode::WChar { size } => Ok(Type::Unsigned(*size)),
            TypeNode::ULong => Ok(Type::ULong),
            TypeNode::ULongLong => Ok(Type::ULongLong),
            TypeNode::Short => Ok(Type::Short),
            TypeNode::Int => Ok(Type::Int),
            TypeNode::Long => Ok(Type::Long),
            TypeNode::LongLong => Ok(Type::LongLong),
            TypeNode::Float => Ok(Type::Float),
            TypeNode::Double => Ok(Type::Double),
            TypeNode::Pointer { pointee_const, pointee } => match self.parse_type(pointee) {
                Ok(p) => Ok(Type::Pointer { is_const: *pointee_const, pointee: Box::new(p) }),
                Err(e) => Err(e),
            },
            TypeNode::LValueReference { pointee_const, pointee } => match self.parse_type(
                pointee,
            ) {
                Ok(p) => Ok(Type::Reference { is_const: *pointee_const, pointee: Box::new(p) }),
                Err(e) => Err(e),
            },
            TypeNode::Record { name, decl } => {
                if name.as_str().is_empty() {
                    match self.parse_record(decl) {
                        Ok(rec) => Ok(Type::UnnamedRecord(rec)),
                        Err(e) => Err(e),
                    }
                } else {
                    Ok(Type::Record(name.clone()))
                }
            },
            TypeNode::Enum { underlying } => self.parse_type(underlying),
            TypeNode::Typedef { name, in_system_header, underlying } => {
                if *in_system_header {
                    self.parse_type(underlying)
                } else {
                    Ok(Type::Typedef(name.clone()))
                }
            },
            TypeNode::ConstantArray { size, element } => match self.parse_type(element) {
                Ok(el) => Ok(Type::Array(*size, Box::new(el))),
                Err(e) => Err(e),
            },
            TypeNode::Elaborated { named } => self.parse_type(named),
            TypeNode::Other { location, kind } => Err(
                ParseError { location: location.clone(), kind: kind.clone() },
            ),
        }
    }

    /// Builds a record from a declaration snapshot: its kind mapped (classes
    /// are structs), and its fields, base names and virtual methods
    /// collected in declaration order; or reports the first error met.
    pub fn parse_record(&self, rn: &RecordNode) -> (r: Result<Record, ParseError>)
        ensures
            match r {
                Ok(rec) => children_error_spec(rn.children@, 0) is None && record_maps_to(
                    *rn,
                    rec,
                ),
                Err(e) => children_error_spec(rn.children@, 0) == Some(e),
            },
        decreases *rn, 1int, 0int,
    {
        let kind = match rn.kind {
            DeclKind::Struct => RecordKind::Struct,
            DeclKind::Class => RecordKind::Struct,
            DeclKind::Union => RecordKind::Union,
        };
        match self.parse_children(&rn.children, 0) {
            Ok((fields, bases, methods)) => Ok(
                Record { name: rn.name.clone(), kind, fields, bases, virtual_methods: methods },
            ),
            Err(e) => Err(e),
        }
    }

    /// Collects the record items of `children[i..]`.
    fn parse_children(&self, children: &Vec<RecordChild>, i: usize) -> (r: Result<
        (Vec<Field>, Vec<String>, Vec<Method>),
        ParseError,
    >)
        requires
            i <= children@.len(),
        ensures
            match r {
                Ok(t) => children_error_spec(children@, i as int) is None && children_map_to(
                    children@,
                    i as int,
                    t.0@,
                    t.1@,
                    t.2@,
                ),
                Err(e) => children_error_spec(children@, i as int) == Some(e),
            },
        decreases *children, 0int, children@.len() - i,
    {
        if i >= children.len() {
            return Ok((Vec::new(), Vec::new(), Vec::new()));
        }
        match &children[i] {
            RecordChild::Field { name, ty } => {
                let t = match self.parse_type(ty) {
                    Ok(t) => t,
                    Err(e) => {
                        return Err(e);
                    },
                };
                match self.parse_children(children, i + 1) {
                    Ok((mut fields, bases, methods)) => {
                        let ghost rest = fields@;
                        fields.insert(0, Field { name: name.clone(), type_: t });
                        proof {
                            assert(fields@.drop_first() =~= rest);
                        }
                        Ok((fields, bases, methods))
                    },
                    Err(e) => Err(e),
                }
            },
            RecordChild::Method { is_virtual, name, arguments, result } => {
                if *is_virtual {
                    let args = match self.parse_args(arguments, 0) {
                        Ok(a) => a,
                        Err(e) => {
                            return Err(e);
                        },
                    };
                    let rt = match self.parse_type(result) {
                        Ok(t) => t,
                        Err(e) => {
                            return Err(e);
                        },
                    };
                    match self.parse_children(children, i + 1) {
                        Ok((fields, bases, mut methods)) => {
                            let ghost rest = methods@;
                            methods.insert(
                                0,
                                Method { name: name.clone(), arguments: args, result_type: rt },
                            );
                            proof {
                                assert(methods@.drop_first() =~= rest);
                            }
                            Ok((fields, bases, methods))
                        },
                        Err(e) => Err(e),
                    }
                } else {
                    self.parse_children(children, i + 1)
                }
            },
            RecordChild::Base { name } => match self.parse_children(children, i + 1) {
                Ok((fields, mut bases, methods)) => {
                    let ghost rest = bases@;
                    bases.insert(0, name.clone());
                    proof {
                        assert(bases@.drop_first() =~= rest);
                    }
                    Ok((fields, bases, methods))
                },
                Err(e) => Err(e),
            },
            RecordChild::Other => self.parse_children(children, i + 1),
        }
    }

    /// Maps the argument snapshots `args[i..]`, in order.
    fn parse_args(&self, args: &Vec<ArgumentNode>, i: usize) -> (r: Result<
        Vec<Argument>,
        ParseError,
    >)
        requires
            i <= args@.len(),
        ensures
            match r {
                Ok(out) => args_error_spec(args@, i as int) is None && args_map_to(
                    args@,
                    i as int,
                    out@,
                ),
                Err(e) => args_error_spec(args@, i as int) == Some(e),
            },
        decreases *args, 0int, args@.len() - i,
    {
        if i >= args.len() {
            return Ok(Vec::new());
        }
        let t = match self.parse_type(&args[i].ty) {
            Ok(t) => t,
            Err(e) => {
                return Err(e);
            },
        };
        match self.parse_args(args, i + 1) {
            Ok(mut out) => {
                let ghost rest = out@;
                out.insert(0, Argument { name: args[i].name.clone(), type_: t });
                proof {
                    assert(out@.drop_first() =~= rest);
                }
                Ok(out)
            },
            Err(e) => Err(e),
        }
    }

    /// Whether the skip list names `name`.
    fn is_skipped(&self, name: &String) -> (r: bool)
        ensures
            r == skip_contains(self.skip_list@, name@),
    {
        let mut k: usize = 0;
        while k < self.skip_list.len()
            invariant
                k <= self.skip_list@.len(),
                forall|j: int| 0 <= j < k ==> self.skip_list@[j]@ != name@,
            decreases self.skip_list@.len() - k,
        {
            if self.skip_list[k] == *name {
                return true;
            }
            k += 1;
        }
        false
    }

    /// Folds one declaration node into the namespace: nothing for
    /// system-header, skipped, unnamed-namespace and non-definition nodes;
    /// a child namespace, a typedef or a record otherwise, as
    /// [`visit_ok`] states; or reports the first error met.
    pub fn visit(&self, ns: Namespace, node: &CursorNode) -> (r: Result<Namespace, ParseError>)
        ensures
            match r {
                Ok(out) => visit_error_spec(self.skip_list@, *node) is None && visit_ok(
                    self.skip_list@,
                    ns,
                    *node,
                    out,
                ),
                Err(e) => visit_error_spec(self.skip_list@, *node) == Some(e),
            },
        decreases *node, 1int, 0int,
    {
        let ghost skip = self.skip_list@;
        let ghost ns_in = ns;
        if node.in_system_header {
            return Ok(ns);
        }
        if self.is_skipped(&node.name) {
            return Ok(ns);
        }
        match &node.kind {
            CursorDecl::Namespace => {
                if node.name.as_str().is_empty() {
                    return Ok(ns);
                }
                let mut ns = ns;
                match find_child(&ns.children, &node.name) {
                    Some(idx) => {
                        let entry = ns.children.remove(idx);
                        let ghost child_in = entry.namespace;
                        match self.visit_children(entry.namespace, &node.children, 0) {
                            Ok(child_out) => {
                                let ghost child_out_g = child_out;
                                ns.children.insert(
                                    idx,
                                    NamespaceEntry { name: entry.name, namespace: child_out },
                                );
                                proof {
                                    assert(ns_witness(child_out_g));
                                    assert(find_child_spec(ns_in.children@, node.name@) == Some(
                                        idx as int,
                                    ));
                                    assert(ns_in.children@[idx as int].namespace == child_in);
                                    assert(fold_ok(
                                        skip,
                                        ns_in.children@[idx as int].namespace,
                                        node.children@,
                                        0,
                                        child_out_g,
                                    ));
                                    assert(ns.children@ =~= ns_in.children@.update(
                                        idx as int,
                                        NamespaceEntry {
                                            name: ns_in.children@[idx as int].name,
                                            namespace: child_out_g,
                                        },
                                    ));
                                    assert(visit_ok(skip, ns_in, *node, ns));
                                }
                                Ok(ns)
                            },
                            Err(e) => Err(e),
                        }
                    },
                    None => {
                        let fresh = Namespace::new();
                        let ghost child_in = fresh;
                        match self.visit_children(fresh, &node.children, 0) {
                            Ok(child_out) => {
                                let ghost child_out_g = child_out;
                                let pos = insert_position(&ns.children, &node.name);
                                ns.children.insert(
                                    pos,
                                    NamespaceEntry {
                                        name: node.name.clone(),
                                        namespace: child_out,
                                    },
                                );
                                proof {
                                    assert(ns_witness(child_in) && ns_witness(child_out_g));
                                    assert(is_empty_ns(child_in) && fold_ok(
                                        skip,
                                        child_in,
                                        node.children@,
                                        0,
                                        child_out_g,
                                    ));
                                    assert(visit_ok(skip, ns_in, *node, ns));
                                }
                                Ok(ns)
                            },
                            Err(e) => Err(e),
                        }
                    },
                }
            },
            CursorDecl::TypedefDecl { name, underlying } => {
                match self.parse_type(underlying) {
                    Ok(v) => {
                        let ghost vg = v;
                        let mut ns = ns;
                        ns.typedefs.push(Typedef { name: name.clone(), type_: v });
                        proof {
                            assert(type_maps_to(*underlying, vg) && ns.typedefs@
                                == ns_in.typedefs@.push(
                                Typedef { name: *name, type_: vg },
                            ));
                            assert(visit_ok(skip, ns_in, *node, ns));
                        }
                        Ok(ns)
                    },
                    Err(e) => Err(e),
                }
            },
            CursorDecl::RecordDecl { decl, is_definition } => {
                if !*is_definition {
                    return Ok(ns);
                }
                let mut ns = ns;
                if !decl.name.as_str().is_empty() {
                    match self.parse_record(decl) {
                        Ok(rec) => {
                            ns.records.push(rec);
                        },
                        Err(e) => {
                            return Err(e);
                        },
                    }
                }
                let ghost mid = ns;
                let r = self.visit_children(ns, &node.children, 0);
                proof {
                    if r is Ok {
                        assert(ns_witness(mid));
                        assert(fold_ok(skip, mid, node.children@, 0, r->Ok_0));
                        assert(visit_ok(skip, ns_in, *node, r->Ok_0));
                    }
                }
                r
            },
            CursorDecl::Other => Ok(ns),
        }
    }

    /// Folds the declaration nodes `children[i..]` into the namespace, left
    /// to right; or reports the first error met.
    pub fn visit_children(&self, ns: Namespace, children: &Vec<CursorNode>, i: usize) -> (r:
        Result<Namespace, ParseError>)
        requires
            i <= children@.len(),
        ensures
            match r {
                Ok(out) => fold_error_spec(self.skip_list@, children@, i as int) is None
                    && fold_ok(self.skip_list@, ns, children@, i as int, out),
                Err(e) => fold_error_spec(self.skip_list@, children@, i as int) == Some(e),
            },
        decreases *children, 0int, children@.len() - i,
    {
        let ghost skip = self.skip_list@;
        let ghost ns_in = ns;
        if i >= children.len() {
            return Ok(ns);
        }
        match self.visit(ns, &children[i]) {
            Ok(mid) => {
                let ghost mid_g = mid;
                let r = self.visit_children(mid, children, i + 1);
                proof {
                    if r is Ok {
                        assert(visit_ok(skip, ns_in, children@[i as int], mid_g));
                        assert(fold_ok(skip, mid_g, children@, i + 1, r->Ok_0));
                        lemma_fold_ok_step(skip, ns_in, children@, i as int, mid_g, r->Ok_0);
                    }
                }
                r
            },
            Err(e) => Err(e),
        }
    }
}

} // verus!
