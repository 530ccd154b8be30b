//! Name resolution: collects the declared types and functions of a file into
//! a symbol table.

use vstd::prelude::*;
use vstd::std_specs::cmp::PartialEqSpecImpl;

use crate::ast::{FieldNamed, Fields, File, Ident, Item, ItemFn, ItemStruct};
use crate::ir::table::{bind, lookup, Scopes, SymbolTable};
use crate::text::str_eq;

verus! {

/// Which construct is being collected.
#[derive(Debug, Clone, Copy, PartialEq, Eq, Structural)]
pub enum CollectMode {
    Types,
    Functions,
    Unset,
}

/// A struct type as plain values: its name and the type name of each field.
pub struct TyStructView {
    pub path: Seq<char>,
    pub fields: Map<Seq<char>, Seq<char>>,
}

/// A resolved type as plain values.
pub enum TypeView {
    Primitive(Seq<char>),
    Struct(TyStructView),
}

impl TypeView {
    /// The canonical name of the type. Two types are the same type exactly
    /// when their names are equal.
    pub open spec fn name(self) -> Seq<char> {
        match self {
            TypeView::Primitive(repr) => repr,
            TypeView::Struct(strct) => strct.path,
        }
    }

    /// The unit type.
    pub open spec fn unit() -> TypeView {
        TypeView::Primitive("()"@)
    }

    /// The type of integers.
    pub open spec fn int32() -> TypeView {
        TypeView::Primitive("i32"@)
    }
}

/// A symbol as plain values.
pub enum SymbolView {
    /// A function with its return type.
    Function(TypeView),
    /// A local variable with its type.
    Local(TypeView),
    /// A type.
    Type(TypeView),
}

/// The map from field names to type names that a list of pairs stands for;
/// a later pair replaces an earlier one with the same field name.
pub open spec fn pairs_map(pairs: Seq<(String, String)>) -> Map<Seq<char>, Seq<char>>
    decreases pairs.len(),
{
    if pairs.len() == 0 {
        Map::empty()
    } else {
        pairs_map(pairs.drop_last()).insert(pairs.last().0@, pairs.last().1@)
    }
}

/// The map from field names to type names of the first `n` declared fields.
pub open spec fn named_fields(fields: Seq<FieldNamed>, n: nat) -> Map<Seq<char>, Seq<char>>
    decreases n,
{
    if n == 0 || n > fields.len() {
        Map::empty()
    } else {
        named_fields(fields, (n - 1) as nat).insert(
            fields[n - 1].ident.repr@,
            fields[n - 1].ty.ident.repr@,
        )
    }
}

/// The map from field names to type names of a struct declaration.
pub open spec fn struct_fields(item_struct: ItemStruct) -> Map<Seq<char>, Seq<char>> {
    match item_struct.fields {
        Fields::Named(named) => named_fields(named.fields@, named.fields@.len()),
    }
}

/// A struct type: its name and the type name of each of its fields.
#[derive(Debug)]
pub struct TyStruct {
    path: String,
    /// The fields as pairs of a field name and a type name, in the order of
    /// their declaration.
    pub fields: Vec<(String, String)>,
}

impl View for TyStruct {
    type V = TyStructView;

    closed spec fn view(&self) -> TyStructView {
        TyStructView { path: self.path@, fields: pairs_map(self.fields@) }
    }
}

impl TyStruct {
    /// Create the struct type called `path` with the given fields.
    pub fn new(path: String, fields: Vec<(String, String)>) -> (strct: Self)
        ensures
            strct@ == (TyStructView { path: path@, fields: pairs_map(fields@) }),
    {
        TyStruct { path, fields }
    }

    /// The name of the struct.
    pub fn path(&self) -> (path: &str)
        ensures
            path@ == self@.path,
    {
        self.path.as_str()
    }

    /// The type name of the field called `name`, if there is such a field.
    pub fn field(&self, name: &str) -> (ty: Option<&str>)
        ensures
            match ty {
                Some(ty) => self@.fields.contains_key(name@) && self@.fields[name@] == ty@,
                None => !self@.fields.contains_key(name@),
            },
    {
        let mut i = self.fields.len();
        assert(self.fields@.take(i as int) =~= self.fields@);
        while i > 0
            invariant
                i <= self.fields.len(),
                pairs_map(self.fields@).contains_key(name@) == pairs_map(
                    self.fields@.take(i as int),
                ).contains_key(name@),
                pairs_map(self.fields@).contains_key(name@) ==> pairs_map(self.fields@)[name@]
                    == pairs_map(self.fields@.take(i as int))[name@],
            decreases i,
        {
            i = i - 1;
            assert(self.fields@.take(i + 1).drop_last() =~= self.fields@.take(i as int));
            if str_eq(self.fields[i].0.as_str(), name) {
                return Some(self.fields[i].1.as_str());
            }
        }
        None
    }
}

impl Clone for TyStruct {
    fn clone(&self) -> (strct: Self)
        ensures
            strct@ == self@,
    {
        let mut fields: Vec<(String, String)> = Vec::new();
        let mut i: usize = 0;
        while i < self.fields.len()
            invariant
                i <= self.fields.len(),
                fields@ == self.fields@.take(i as int),
            decreases self.fields.len() - i,
        {
            fields.push((self.fields[i].0.clone(), self.fields[i].1.clone()));
            assert(fields@ =~= self.fields@.take(i + 1));
            i = i + 1;
        }
        assert(self.fields@.take(i as int) =~= self.fields@);
        TyStruct { path: self.path.clone(), fields }
    }
}

/// Represents a resolved type.
#[derive(Debug)]
pub enum Type {
    Primitive(String),
    Struct(TyStruct),
}

impl View for Type {
    type V = TypeView;

    open spec fn view(&self) -> TypeView {
        match *self {
            Type::Primitive(repr) => TypeView::Primitive(repr@),
            Type::Struct(strct) => TypeView::Struct(strct@),
        }
    }
}

impl Type {
    /// The canonical name of this type.
    pub fn name(&self) -> (name: &str)
        ensures
            name@ == self@.name(),
    {
        match self {
            Type::Primitive(repr) => repr.as_str(),
            Type::Struct(strct) => strct.path(),
        }
    }
}

impl Clone for Type {
    fn clone(&self) -> (ty: Self)
        ensures
            ty@ == self@,
    {
        match self {
            Type::Primitive(repr) => Type::Primitive(repr.clone()),
            Type::Struct(strct) => Type::Struct(strct.clone()),
        }
    }
}

impl PartialEq for Type {
    fn eq(&self, other: &Type) -> (equal: bool) {
        str_eq(self.name(), other.name())
    }
}

impl PartialEqSpecImpl for Type {
    open spec fn obeys_eq_spec() -> bool {
        true
    }

    open spec fn eq_spec(&self, other: &Type) -> bool {
        self@.name() == other@.name()
    }
}

/// Represents a resolved function.
#[derive(Debug)]
pub struct Function {
    /// The resolved type returned by this function.
    pub return_type: Type,
}

impl Clone for Function {
    fn clone(&self) -> (function: Self)
        ensures
            function.return_type@ == self.return_type@,
    {
        Function { return_type: self.return_type.clone() }
    }
}

/// Represents a resolved local.
#[derive(Debug)]
pub struct Local {
    /// The resolved type of this local.
    pub ty: Type,
}

impl Clone for Local {
    fn clone(&self) -> (local: Self)
        ensures
            local.ty@ == self.ty@,
    {
        Local { ty: self.ty.clone() }
    }
}

/// Raw strings should resolve to one of the following kinds of symbols.
#[derive(Debug)]
pub enum Symbol {
    Function(Function),
    Local(Local),
    Type(Type),
}

impl View for Symbol {
    type V = SymbolView;

    open spec fn view(&self) -> SymbolView {
        match *self {
            Symbol::Function(function) => SymbolView::Function(function.return_type@),
            Symbol::Local(local) => SymbolView::Local(local.ty@),
            Symbol::Type(ty) => SymbolView::Type(ty@),
        }
    }
}

impl Clone for Symbol {
    fn clone(&self) -> (symbol: Self)
        ensures
            symbol@ == self@,
    {
        match self {
            Symbol::Function(function) => Symbol::Function(function.clone()),
            Symbol::Local(local) => Symbol::Local(local.clone()),
            Symbol::Type(ty) => Symbol::Type(ty.clone()),
        }
    }
}

/// The scopes of a symbol table with each symbol as plain values.
pub open spec fn view_scopes(scopes: Scopes<Symbol>) -> Scopes<SymbolView> {
    Seq::new(scopes.len(), |i: int| scopes[i].map_values(|symbol: Symbol| symbol@))
}

/// Looking a name up and viewing the symbol is the same as looking it up in
/// the viewed scopes.
pub proof fn lemma_view_lookup(scopes: Scopes<Symbol>, name: Seq<char>)
    ensures
        lookup(view_scopes(scopes), name) == match lookup(scopes, name) {
            Some(symbol) => Some(symbol@),
            None => None,
        },
    decreases scopes.len(),
{
    if scopes.len() > 0 {
        assert(view_scopes(scopes).drop_last() =~= view_scopes(scopes.drop_last()));
        if !scopes.last().contains_key(name) {
            lemma_view_lookup(scopes.drop_last(), name);
        }
    }
}

/// Binding a symbol and viewing the scopes is the same as binding its view
/// in the viewed scopes.
pub proof fn lemma_view_bind(scopes: Scopes<Symbol>, name: Seq<char>, symbol: Symbol)
    requires
        scopes.len() > 0,
    ensures
        view_scopes(bind(scopes, name, symbol)) == bind(view_scopes(scopes), name, symbol@),
{
    let left = view_scopes(bind(scopes, name, symbol));
    let right = bind(view_scopes(scopes), name, symbol@);
    assert(left.len() == right.len());
    assert forall|i: int| 0 <= i < left.len() implies left[i] =~= right[i] by {}
    assert(left =~= right);
}

/// The type that `name` resolves to, if it names a type.
pub open spec fn resolve_ty(symbols: Scopes<SymbolView>, name: Seq<char>) -> Option<TypeView> {
    match lookup(symbols, name) {
        Some(SymbolView::Type(ty)) => Some(ty),
        _ => None,
    }
}

/// The type of the local that `name` resolves to, if it names a local.
pub open spec fn resolve_local(symbols: Scopes<SymbolView>, name: Seq<char>) -> Option<TypeView> {
    match lookup(symbols, name) {
        Some(SymbolView::Local(ty)) => Some(ty),
        _ => None,
    }
}

/// The return type of the function that `name` resolves to, if it names a function.
pub open spec fn resolve_fn(symbols: Scopes<SymbolView>, name: Seq<char>) -> Option<TypeView> {
    match lookup(symbols, name) {
        Some(SymbolView::Function(ty)) => Some(ty),
        _ => None,
    }
}

/// The symbols before any declaration is collected: the primitive types.
pub open spec fn primitives() -> Scopes<SymbolView> {
    seq![
        Map::<Seq<char>, SymbolView>::empty().insert(
            "()"@,
            SymbolView::Type(TypeView::unit()),
        ).insert("i32"@, SymbolView::Type(TypeView::int32())),
    ]
}

/// The symbols after a struct declaration is registered under its name.
pub open spec fn declare_struct(
    symbols: Scopes<SymbolView>,
    item_struct: ItemStruct,
) -> Scopes<SymbolView> {
    bind(
        symbols,
        item_struct.ident.repr@,
        SymbolView::Type(
            TypeView::Struct(
                TyStructView { path: item_struct.ident.repr@, fields: struct_fields(item_struct) },
            ),
        ),
    )
}

/// The symbols after a function is registered under its name with its
/// return type, which is the unit type if the declared name is no type.
pub open spec fn declare_function(symbols: Scopes<SymbolView>, item_fn: ItemFn) -> Scopes<
    SymbolView,
> {
    bind(
        symbols,
        item_fn.ident.repr@,
        SymbolView::Function(
            match resolve_ty(symbols, item_fn.ty.ident.repr@) {
                Some(ty) => ty,
                None => TypeView::unit(),
            },
        ),
    )
}

/// The symbols after one item is visited in the given mode: the type pass
/// registers structs, the function pass registers functions.
pub open spec fn collect_item(
    symbols: Scopes<SymbolView>,
    item: Item,
    mode: CollectMode,
) -> Scopes<SymbolView> {
    match item {
        Item::Struct(item_struct) if mode == CollectMode::Types => declare_struct(
            symbols,
            item_struct,
        ),
        Item::Fn(item_fn) if mode == CollectMode::Functions => declare_function(
            symbols,
            item_fn,
        ),
        _ => symbols,
    }
}

/// The symbols after the first `n` items are visited, in order, in the given mode.
pub open spec fn collect(
    symbols: Scopes<SymbolView>,
    items: Seq<Item>,
    n: nat,
    mode: CollectMode,
) -> Scopes<SymbolView>
    decreases n,
{
    if n == 0 || n > items.len() {
        symbols
    } else {
        collect_item(collect(symbols, items, (n - 1) as nat, mode), items[n - 1], mode)
    }
}

/// This structure is responsible for name resolution.
pub struct Resolver<'a> {
    /// The root of the abstract syntax tree.
    file: &'a File,
    /// The global symbol table.
    table: SymbolTable<Symbol>,
    /// Which construct is being collected.
    mode: CollectMode,
}

impl<'a> Resolver<'a> {
    /// The symbols of the table as plain values.
    pub closed spec fn symbols(&self) -> Scopes<SymbolView> {
        view_scopes(self.table@)
    }

    /// The file whose declarations are collected.
    pub closed spec fn file(&self) -> &'a File {
        self.file
    }

    /// The pass that ran last.
    pub closed spec fn mode(&self) -> CollectMode {
        self.mode
    }

    /// Create a new resolver, whose table holds the primitive types.
    pub fn new(ast: &'a File) -> (resolver: Self)
        ensures
            resolver.symbols() == primitives(),
            resolver.file() == ast,
            resolver.mode() == CollectMode::Unset,
    {
        // Create a new symbol table and populate it with primitive types
        let mut table = SymbolTable::new();
        let ghost empty = table@;
        let unit = Symbol::Type(Type::Primitive("()".to_owned()));
        let int32 = Symbol::Type(Type::Primitive("i32".to_owned()));
        proof {
            lemma_view_bind(empty, "()"@, unit);
            lemma_view_bind(bind(empty, "()"@, unit), "i32"@, int32);
            assert(view_scopes(empty)[0] =~= Map::<Seq<char>, SymbolView>::empty());
            assert(view_scopes(empty) =~= seq![Map::<Seq<char>, SymbolView>::empty()]);
            assert(bind(bind(view_scopes(empty), "()"@, unit@), "i32"@, int32@) =~= primitives());
        }
        table.insert("()", unit);
        table.insert("i32", int32);
        Resolver { file: ast, table, mode: CollectMode::Unset }
    }

    /// Collect all the struct types in the program.
    pub fn collect_tys(&mut self)
        ensures
            final(self).file() == old(self).file(),
            final(self).mode() == CollectMode::Types,
            final(self).symbols() == collect(
                old(self).symbols(),
                old(self).file().items@,
                old(self).file().items@.len(),
                CollectMode::Types,
            ),
    {
        self.mode = CollectMode::Types;
        self.visit_file();
    }

    /// Collect all the functions in the program. This is run after the types
    /// are collected, so that struct types can be return types.
    pub fn collect_functions(&mut self)
        ensures
            final(self).file() == old(self).file(),
            final(self).mode() == CollectMode::Functions,
            final(self).symbols() == collect(
                old(self).symbols(),
                old(self).file().items@,
                old(self).file().items@.len(),
                CollectMode::Functions,
            ),
    {
        self.mode = CollectMode::Functions;
        self.visit_file();
    }

    /// Resolve an identifier to the type it represents.
    pub fn resolve_ty(&self, ident: &str) -> (ty: Option<Type>)
        ensures
            match resolve_ty(self.symbols(), ident@) {
                Some(resolved) => ty is Some && ty->0@ == resolved,
                None => ty is None,
            },
    {
        proof {
            lemma_view_lookup(self.table@, ident@);
        }
        match self.table.find(ident) {
            Some(Symbol::Type(ty)) => Some(ty.clone()),
            _ => None,
        }
    }

    /// Resolve an identifier to the local it represents.
    pub fn resolve_local(&self, ident: &Ident) -> (ty: Option<Type>)
        ensures
            match resolve_local(self.symbols(), ident.repr@) {
                Some(resolved) => ty is Some && ty->0@ == resolved,
                None => ty is None,
            },
    {
        proof {
            lemma_view_lookup(self.table@, ident.repr@);
        }
        match self.table.find(ident.repr.as_str()) {
            Some(Symbol::Local(local)) => Some(local.ty.clone()),
            _ => None,
        }
    }

    /// Resolve an identifier to the function it represents.
    pub fn resolve_fn(&self, ident: &Ident) -> (function: Option<Function>)
        ensures
            match resolve_fn(self.symbols(), ident.repr@) {
                Some(resolved) => function is Some && function->0.return_type@ == resolved,
                None => function is None,
            },
    {
        proof {
            lemma_view_lookup(self.table@, ident.repr@);
        }
        match self.table.find(ident.repr.as_str()) {
            Some(Symbol::Function(function)) => Some(function.clone()),
            _ => None,
        }
    }

    /// Register `name` in the table as a local of type `ty`.
    pub fn declare_local(&mut self, name: &str, ty: Type)
        ensures
            final(self).file() == old(self).file(),
            final(self).mode() == old(self).mode(),
            final(self).symbols() == bind(old(self).symbols(), name@, SymbolView::Local(ty@)),
    {
        let symbol = Symbol::Local(Local { ty });
        proof {
            self.table.lemma_depth();
            lemma_view_bind(self.table@, name@, symbol);
        }
        self.table.insert(name, symbol)
    }

    /// Visit every item of the file in the current mode.
    fn visit_file(&mut self)
        ensures
            final(self).file() == old(self).file(),
            final(self).mode() == old(self).mode(),
            final(self).symbols() == collect(
                old(self).symbols(),
                old(self).file().items@,
                old(self).file().items@.len(),
                old(self).mode(),
            ),
    {
        let file = self.file;
        let mut i: usize = 0;
        while i < file.items.len()
            invariant
                i <= file.items.len(),
                file == old(self).file,
                self.file == file,
                self.mode == old(self).mode,
                self.symbols() == collect(old(self).symbols(), file.items@, i as nat, self.mode),
            decreases file.items.len() - i,
        {
            match &file.items[i] {
                Item::Fn(item_fn) => self.visit_item_fn(item_fn),
                Item::Struct(item_struct) => self.visit_item_struct(item_struct),
                Item::Impl(_) => {},
            }
            i = i + 1;
        }
    }

    /// Register a function, if functions are being collected.
    fn visit_item_fn(&mut self, item_fn: &ItemFn)
        ensures
            final(self).file() == old(self).file(),
            final(self).mode() == old(self).mode(),
            final(self).symbols() == collect_item(
                old(self).symbols(),
                Item::Fn(*item_fn),
                old(self).mode(),
            ),
    {
        if self.mode != CollectMode::Functions {
            return ;
        }
        let name = item_fn.ident.repr.as_str();
        let return_type = match self.resolve_ty(item_fn.ty.ident.repr.as_str()) {
            Some(ty) => ty,
            None => Type::Primitive("()".to_owned()),
        };
        let symbol = Symbol::Function(Function { return_type });
        proof {
            self.table.lemma_depth();
            lemma_view_bind(self.table@, name@, symbol);
        }
        self.table.insert(name, symbol)
    }

    /// Register a struct type, if types are being collected.
    fn visit_item_struct(&mut self, item_struct: &ItemStruct)
        ensures
            final(self).file() == old(self).file(),
            final(self).mode() == old(self).mode(),
            final(self).symbols() == collect_item(
                old(self).symbols(),
                Item::Struct(*item_struct),
                old(self).mode(),
            ),
    {
        if self.mode != CollectMode::Types {
            return ;
        }
        let name = item_struct.ident.repr.as_str();
        let symbol = Symbol::Type(
            Type::Struct(TyStruct::new(item_struct.ident.repr.clone(), item_struct_fields(item_struct))),
        );
        proof {
            self.table.lemma_depth();
            lemma_view_bind(self.table@, name@, symbol);
        }
        self.table.insert(name, symbol)
    }
}

/// The fields of a struct declaration as pairs of a field name and a type name.
pub fn item_struct_fields(item_struct: &ItemStruct) -> (result: Vec<(String, String)>)
    ensures
        pairs_map(result@) == struct_fields(*item_struct),
        result@.len() == item_struct.fields->Named_0.fields@.len(),
        forall|i: int|
            0 <= i < result@.len() ==> #[trigger] result@[i] == (
                item_struct.fields->Named_0.fields@[i].ident.repr,
                item_struct.fields->Named_0.fields@[i].ty.ident.repr,
            ),
{
    let mut result: Vec<(String, String)> = Vec::new();
    match &item_struct.fields {
        Fields::Named(named_fields) => {
            let mut i: usize = 0;
            while i < named_fields.fields.len()
                invariant
                    i <= named_fields.fields.len(),
                    result@.len() == i,
                    forall|k: int|
                        0 <= k < i ==> #[trigger] result@[k] == (
                            named_fields.fields@[k].ident.repr,
                            named_fields.fields@[k].ty.ident.repr,
                        ),
                    pairs_map(result@) == self::named_fields(named_fields.fields@, i as nat),
                decreases named_fields.fields.len() - i,
            {
                let field = &named_fields.fields[i];
                let ghost before = result@;
                result.push((field.ident.repr.clone(), field.ty.ident.repr.clone()));
                assert(result@.drop_last() =~= before);
                i = i + 1;
            }
        },
    }
    result
}

} // verus!
