use vstd::prelude::*;
use crate::token::{TokenTree, Tree, trees_view, clone_stream};

verus! {

/// A generic argument of a path segment: a type (held as its tokens) or anything else.
#[derive(Debug)]
pub enum GenericArgument {
    Type(Vec<TokenTree>),
    Other,
}

/// The arguments of a path segment.
#[derive(Debug)]
pub enum PathArguments {
    /// No arguments (`Vec`).
    NoArguments,
    /// Arguments in angle brackets (`Vec<T>`).
    AngleBracketed(Vec<GenericArgument>),
    /// Arguments in parentheses (`Fn(A) -> B`).
    Parenthesized,
}

/// One segment of a path: its identifier and its arguments.
#[derive(Debug)]
pub struct PathSegment {
    pub ident: String,
    pub arguments: PathArguments,
}

/// The shape of a type that the builders look at.
#[derive(Debug)]
pub enum TypeKind {
    /// A path type, with the first segment of its path (if it has one).
    Path(Option<PathSegment>),
    /// Any other type.
    Other,
}

/// A type: its tokens, and its shape.
#[derive(Debug)]
pub struct Type {
    pub tokens: Vec<TokenTree>,
    pub kind: TypeKind,
}

/// The meta of an attribute.
#[derive(Debug)]
pub enum Meta {
    /// `#[path]`.
    Path,
    /// `#[path(tokens)]`: the first segment of the path (if it has one) and the tokens inside
    /// the delimiters.
    List(Option<String>, Vec<TokenTree>),
    /// `#[path = value]`.
    NameValue,
}

/// A field of a struct: its name (if it has one), its type and the metas of its attributes.
#[derive(Debug)]
pub struct Field {
    pub ident: Option<String>,
    pub ty: Type,
    pub attrs: Vec<Meta>,
}

/// The fields of a struct.
#[derive(Debug)]
pub enum Fields {
    Named(Vec<Field>),
    Unnamed,
    Unit,
}

/// What a derive input holds.
#[derive(Debug)]
pub enum Data {
    Struct(Fields),
    Enum,
    Union,
}

/// The input of a derive: the name of the item and its data.
#[derive(Debug)]
pub struct DeriveInput {
    pub ident: String,
    pub data: Data,
}

/// Model of a generic argument.
pub enum GenericArgumentView {
    Type(Seq<Tree>),
    Other,
}

/// Model of path arguments.
pub enum PathArgumentsView {
    NoArguments,
    AngleBracketed(Seq<GenericArgumentView>),
    Parenthesized,
}

/// Model of a path segment.
pub struct PathSegmentView {
    pub ident: Seq<char>,
    pub arguments: PathArgumentsView,
}

/// Model of the shape of a type.
pub enum TypeKindView {
    Path(Option<PathSegmentView>),
    Other,
}

/// Model of a type.
pub struct TypeView {
    pub tokens: Seq<Tree>,
    pub kind: TypeKindView,
}

/// Model of an attribute's meta.
pub enum MetaView {
    Path,
    List(Option<Seq<char>>, Seq<Tree>),
    NameValue,
}

/// Model of a field.
pub struct FieldView {
    pub ident: Option<Seq<char>>,
    pub ty: TypeView,
    pub attrs: Seq<MetaView>,
}

/// The model of an optional string.
pub open spec fn opt_text(s: Option<String>) -> Option<Seq<char>> {
    match s {
        Some(x) => Some(x@),
        None => None,
    }
}

impl View for GenericArgument {
    type V = GenericArgumentView;

    open spec fn view(&self) -> GenericArgumentView {
        match self {
            GenericArgument::Type(t) => GenericArgumentView::Type(trees_view(t@)),
            GenericArgument::Other => GenericArgumentView::Other,
        }
    }
}

impl View for PathArguments {
    type V = PathArgumentsView;

    open spec fn view(&self) -> PathArgumentsView {
        match self {
            PathArguments::NoArguments => PathArgumentsView::NoArguments,
            PathArguments::AngleBracketed(args) => PathArgumentsView::AngleBracketed(
                args@.map_values(|a: GenericArgument| a@),
            ),
            PathArguments::Parenthesized => PathArgumentsView::Parenthesized,
        }
    }
}

impl View for PathSegment {
    type V = PathSegmentView;

    open spec fn view(&self) -> PathSegmentView {
        PathSegmentView { ident: self.ident@, arguments: self.arguments@ }
    }
}

impl View for TypeKind {
    type V = TypeKindView;

    open spec fn view(&self) -> TypeKindView {
        match self {
            TypeKind::Path(seg) => TypeKindView::Path(
                match seg {
                    Some(s) => Some(s@),
                    None => None,
                },
            ),
            TypeKind::Other => TypeKindView::Other,
        }
    }
}

impl View for Type {
    type V = TypeView;

    open spec fn view(&self) -> TypeView {
        TypeView { tokens: trees_view(self.tokens@), kind: self.kind@ }
    }
}

impl View for Meta {
    type V = MetaView;

    open spec fn view(&self) -> MetaView {
        match self {
            Meta::Path => MetaView::Path,
            Meta::List(p, ts) => MetaView::List(opt_text(*p), trees_view(ts@)),
            Meta::NameValue => MetaView::NameValue,
        }
    }
}

impl View for Field {
    type V = FieldView;

    open spec fn view(&self) -> FieldView {
        FieldView {
            ident: opt_text(self.ident),
            ty: self.ty@,
            attrs: self.attrs@.map_values(|m: Meta| m@),
        }
    }
}

/// The models of a sequence of fields.
pub open spec fn fields_view(fs: Seq<Field>) -> Seq<FieldView> {
    fs.map_values(|f: Field| f@)
}

/// Deep copy of a generic argument.
pub fn clone_generic_argument(a: &GenericArgument) -> (r: GenericArgument)
    ensures
        r@ == a@,
{
    match a {
        GenericArgument::Type(t) => GenericArgument::Type(clone_stream(t)),
        GenericArgument::Other => GenericArgument::Other,
    }
}

/// Deep copy of path arguments.
pub fn clone_path_arguments(a: &PathArguments) -> (r: PathArguments)
    ensures
        r@ == a@,
{
    match a {
        PathArguments::NoArguments => PathArguments::NoArguments,
        PathArguments::AngleBracketed(args) => {
            let mut out: Vec<GenericArgument> = Vec::new();
            let mut i: usize = 0;
            while i < args.len()
                invariant
                    i <= args@.len(),
                    out@.len() == i,
                    forall|j: int| 0 <= j < i ==> (#[trigger] out@[j])@ == args@[j]@,
                decreases args.len() - i,
            {
                out.push(clone_generic_argument(&args[i]));
                i = i + 1;
            }
            assert(out@.map_values(|g: GenericArgument| g@) =~= args@.map_values(|g: GenericArgument| g@));
            PathArguments::AngleBracketed(out)
        },
        PathArguments::Parenthesized => PathArguments::Parenthesized,
    }
}

/// Deep copy of a type.
pub fn clone_type(t: &Type) -> (r: Type)
    ensures
        r@ == t@,
{
    let kind = match &t.kind {
        TypeKind::Path(seg) => match seg {
            Some(s) => TypeKind::Path(
                Some(PathSegment { ident: s.ident.clone(), arguments: clone_path_arguments(&s.arguments) }),
            ),
            None => TypeKind::Path(None),
        },
        TypeKind::Other => TypeKind::Other,
    };
    Type { tokens: clone_stream(&t.tokens), kind }
}

/// Deep copy of an attribute's meta.
pub fn clone_meta(m: &Meta) -> (r: Meta)
    ensures
        r@ == m@,
{
    match m {
        Meta::Path => Meta::Path,
        Meta::List(p, ts) => {
            let p2 = match p {
                Some(x) => Some(x.clone()),
                None => None,
            };
            Meta::List(p2, clone_stream(ts))
        },
        Meta::NameValue => Meta::NameValue,
    }
}

/// Deep copy of a field.
pub fn clone_field(f: &Field) -> (r: Field)
    ensures
        r@ == f@,
{
    let ident = match &f.ident {
        Some(x) => Some(x.clone()),
        None => None,
    };
    let mut attrs: Vec<Meta> = Vec::new();
    let mut i: usize = 0;
    while i < f.attrs.len()
        invariant
            i <= f.attrs@.len(),
            attrs@.len() == i,
            forall|j: int| 0 <= j < i ==> (#[trigger] attrs@[j])@ == f.attrs@[j]@,
        decreases f.attrs.len() - i,
    {
        attrs.push(clone_meta(&f.attrs[i]));
        i = i + 1;
    }
    assert(attrs@.map_values(|m: Meta| m@) =~= f.attrs@.map_values(|m: Meta| m@));
    Field { ident, ty: clone_type(&f.ty), attrs }
}

} // verus!
