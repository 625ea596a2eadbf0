//! Simplification of a macro-expanded parse tree into a document.

use vstd::prelude::*;
use crate::error::ArmaConfigError;
use crate::error::ErrorModel;
use crate::parser::Node;
use crate::parser::Statement;
use crate::parser::AST;

verus! {

/// A simplified document: one synthetic root class.
#[derive(Debug, PartialEq, Eq)]
pub struct Config {
    pub root: Class,
}

/// A class: its inheritance tag and its entries in declaration order.
#[derive(Debug, PartialEq, Eq)]
pub struct Class {
    /// The name of the parent class; empty when there is none.
    pub parent: String,
    /// Whether the class is only declared here and defined elsewhere.
    pub external: bool,
    pub deletion: bool,
    pub entries: Vec<(String, Entry)>,
}

/// The value of one named entry of a class.
#[derive(Debug, PartialEq, Eq)]
pub enum Entry {
    Str(String),
    /// A single-precision number, held as its IEEE 754 bit pattern.
    Float(u32),
    Int(i32),
    Array(Array),
    Class(Class),
    /// The entries of a nested fragment, on their way into the entries of
    /// the enclosing scope. No document holds one.
    Invisible(Vec<(String, Entry)>),
}

/// An array property.
#[derive(Debug, PartialEq, Eq)]
pub struct Array {
    /// Whether the array extends an earlier array of the same name.
    pub expand: bool,
    pub elements: Vec<ArrayElement>,
}

/// One element of an array.
#[derive(Debug, PartialEq, Eq)]
pub enum ArrayElement {
    Str(String),
    /// A single-precision number, held as its IEEE 754 bit pattern.
    Float(u32),
    Int(i32),
    Array(Array),
}

/// The mathematical value of an [`ArrayElement`].
pub enum ElementModel {
    Str(Seq<char>),
    Float(u32),
    Int(i32),
    Array(ArrayModel),
}

/// The mathematical value of an [`Array`].
pub struct ArrayModel {
    pub expand: bool,
    pub elements: Seq<ElementModel>,
}

/// The mathematical value of an [`Entry`].
pub enum EntryModel {
    Str(Seq<char>),
    Float(u32),
    Int(i32),
    Array(ArrayModel),
    Class(ClassModel),
    Invisible(Seq<(Seq<char>, EntryModel)>),
}

/// The mathematical value of a [`Class`].
pub struct ClassModel {
    pub parent: Seq<char>,
    pub external: bool,
    pub deletion: bool,
    pub entries: Seq<(Seq<char>, EntryModel)>,
}

/// The values of the named entries of a class body, in order.
pub open spec fn pairs_view(entries: Vec<(String, Entry)>) -> Seq<(Seq<char>, EntryModel)>
    decreases entries,
{
    Seq::new(
        entries.len() as nat,
        |i: int|
            if 0 <= i < entries.len() {
                (entries[i].0@, entries[i].1.view())
            } else {
                arbitrary()
            },
    )
}

/// The values of the elements of an array, in order.
pub open spec fn elements_view(elements: Vec<ArrayElement>) -> Seq<ElementModel>
    decreases elements,
{
    Seq::new(
        elements.len() as nat,
        |i: int|
            if 0 <= i < elements.len() {
                elements[i].view()
            } else {
                arbitrary()
            },
    )
}

impl View for ArrayElement {
    type V = ElementModel;

    open spec fn view(&self) -> ElementModel
        decreases self,
    {
        match self {
            ArrayElement::Str(text) => ElementModel::Str(text@),
            ArrayElement::Float(bits) => ElementModel::Float(*bits),
            ArrayElement::Int(value) => ElementModel::Int(*value),
            ArrayElement::Array(array) => ElementModel::Array(array.view()),
        }
    }
}

impl View for Array {
    type V = ArrayModel;

    open spec fn view(&self) -> ArrayModel
        decreases self,
    {
        ArrayModel { expand: self.expand, elements: elements_view(self.elements) }
    }
}

impl View for Entry {
    type V = EntryModel;

    open spec fn view(&self) -> EntryModel
        decreases self,
    {
        match self {
            Entry::Str(text) => EntryModel::Str(text@),
            Entry::Float(bits) => EntryModel::Float(*bits),
            Entry::Int(value) => EntryModel::Int(*value),
            Entry::Array(array) => EntryModel::Array(array.view()),
            Entry::Class(class) => EntryModel::Class(class.view()),
            Entry::Invisible(entries) => EntryModel::Invisible(pairs_view(*entries)),
        }
    }
}

impl View for Class {
    type V = ClassModel;

    open spec fn view(&self) -> ClassModel
        decreases self,
    {
        ClassModel {
            parent: self.parent@,
            external: self.external,
            deletion: self.deletion,
            entries: pairs_view(self.entries),
        }
    }
}

impl View for Config {
    type V = ClassModel;

    open spec fn view(&self) -> ClassModel {
        self.root@
    }
}

impl Clone for ArrayElement {
    fn clone(&self) -> (copy: Self)
        ensures
            copy@ == self@,
        decreases self,
    {
        match self {
            ArrayElement::Str(text) => ArrayElement::Str(text.clone()),
            ArrayElement::Float(bits) => ArrayElement::Float(*bits),
            ArrayElement::Int(value) => ArrayElement::Int(*value),
            ArrayElement::Array(array) => ArrayElement::Array(array.clone()),
        }
    }
}

impl Clone for Array {
    fn clone(&self) -> (copy: Self)
        ensures
            copy@ == self@,
        decreases self,
    {
        let mut elements: Vec<ArrayElement> = Vec::new();
        let mut at: usize = 0;
        while at < self.elements.len()
            invariant
                at <= self.elements.len(),
                elements.len() == at,
                forall|i: int| 0 <= i < at ==> (#[trigger] elements[i])@ == self.elements[i]@,
            decreases self.elements.len() - at,
        {
            elements.push(self.elements[at].clone());
            at += 1;
        }
        assert(elements_view(elements) =~= elements_view(self.elements));
        Array { expand: self.expand, elements }
    }
}

/// A copy of the entries of a class body.
fn clone_entries(entries: &Vec<(String, Entry)>) -> (copy: Vec<(String, Entry)>)
    ensures
        pairs_view(copy) == pairs_view(*entries),
    decreases entries,
{
    let mut copy: Vec<(String, Entry)> = Vec::new();
    let mut at: usize = 0;
    while at < entries.len()
        invariant
            at <= entries.len(),
            copy.len() == at,
            forall|i: int|
                0 <= i < at ==> (#[trigger] copy[i]).0@ == entries[i].0@ && copy[i].1@
                    == entries[i].1@,
        decreases entries.len() - at,
    {
        copy.push((entries[at].0.clone(), entries[at].1.clone()));
        at += 1;
    }
    assert(pairs_view(copy) =~= pairs_view(*entries));
    copy
}

impl Clone for Entry {
    fn clone(&self) -> (copy: Self)
        ensures
            copy@ == self@,
        decreases self,
    {
        match self {
            Entry::Str(text) => Entry::Str(text.clone()),
            Entry::Float(bits) => Entry::Float(*bits),
            Entry::Int(value) => Entry::Int(*value),
            Entry::Array(array) => Entry::Array(array.clone()),
            Entry::Class(class) => Entry::Class(class.clone()),
            Entry::Invisible(entries) => Entry::Invisible(clone_entries(entries)),
        }
    }
}

impl Clone for Class {
    fn clone(&self) -> (copy: Self)
        ensures
            copy@ == self@,
        decreases self,
    {
        Class {
            parent: self.parent.clone(),
            external: self.external,
            deletion: self.deletion,
            entries: clone_entries(&self.entries),
        }
    }
}

impl Clone for Config {
    fn clone(&self) -> (copy: Self)
        ensures
            copy@ == self@,
            copy.well_formed() == self.well_formed(),
    {
        Config { root: self.root.clone() }
    }
}

/// What an array element stands for when it is an entry of the given value:
/// the same scalar or array. A class or a fragment is no array element.
pub open spec fn narrowed(entry: EntryModel) -> Result<ElementModel, ErrorModel> {
    match entry {
        EntryModel::Str(text) => Ok(ElementModel::Str(text)),
        EntryModel::Float(bits) => Ok(ElementModel::Float(bits)),
        EntryModel::Int(value) => Ok(ElementModel::Int(value)),
        EntryModel::Array(array) => Ok(ElementModel::Array(array)),
        EntryModel::Class(_) => Err(ErrorModel::InternalStructuralDefect("Class"@)),
        EntryModel::Invisible(_) => Err(ErrorModel::InternalStructuralDefect("Invisible"@)),
    }
}

/// The entry that a property with the value `statement` stands for.
pub open spec fn value_model(statement: Statement, expand: bool) -> Result<EntryModel, ErrorModel>
    decreases statement,
{
    match statement {
        Statement::Integer(value) => Ok(EntryModel::Int(value)),
        Statement::Float(bits) => Ok(EntryModel::Float(bits)),
        Statement::Str(text) => Ok(EntryModel::Str(text@)),
        Statement::Array(nodes) => match elements_model(nodes@) {
            Ok(elements) => Ok(EntryModel::Array(ArrayModel { expand, elements })),
            Err(error) => Err(error),
        },
        _ => Err(ErrorModel::InvalidProperty(crate::parser::shape_name(statement))),
    }
}

/// The array element that one node of an array literal stands for. A node
/// that is a property stands for its value, read under its own append flag;
/// any other node is read as a value itself, with the flag unset.
pub open spec fn element_model(node: Node) -> Result<ElementModel, ErrorModel>
    decreases node,
{
    let value = match node.statement {
        Statement::Property { value, expand, .. } => value_model(value.statement, expand),
        _ => value_model(node.statement, false),
    };
    match value {
        Ok(entry) => narrowed(entry),
        Err(error) => Err(error),
    }
}

/// The elements that the nodes of an array literal stand for, in order, or
/// the error of the first node that stands for none.
pub open spec fn elements_model(nodes: Seq<Node>) -> Result<Seq<ElementModel>, ErrorModel>
    decreases nodes,
{
    if nodes.len() == 0 {
        Ok(Seq::empty())
    } else {
        match elements_model(nodes.drop_last()) {
            Ok(before) => match element_model(nodes.last()) {
                Ok(element) => Ok(before.push(element)),
                Err(error) => Err(error),
            },
            Err(error) => Err(error),
        }
    }
}

/// The name and the entry that one statement of a class body stands for.
/// A nested fragment stands for an `Invisible` entry without a name.
pub open spec fn entry_model(node: Node) -> Result<(Seq<char>, EntryModel), ErrorModel>
    decreases node,
{
    match node.statement {
        Statement::Class { ident, extends, props } => match entries_model(props@) {
            Ok(entries) => Ok(
                (
                    ident@,
                    EntryModel::Class(
                        ClassModel {
                            parent: match extends {
                                Some(parent) => parent@,
                                None => Seq::empty(),
                            },
                            external: false,
                            deletion: false,
                            entries,
                        },
                    ),
                ),
            ),
            Err(error) => Err(error),
        },
        Statement::ClassDef(ident) => Ok(
            (
                ident@,
                EntryModel::Class(
                    ClassModel {
                        parent: Seq::empty(),
                        external: true,
                        deletion: false,
                        entries: Seq::empty(),
                    },
                ),
            ),
        ),
        Statement::Property { ident, value, expand } => match value_model(value.statement, expand) {
            Ok(entry) => Ok((ident@, entry)),
            Err(error) => Err(error),
        },
        Statement::Config(inner) => match entries_model(inner@) {
            Ok(entries) => Ok((Seq::empty(), EntryModel::Invisible(entries))),
            Err(error) => Err(error),
        },
        _ => Err(ErrorModel::InternalStructuralDefect(crate::parser::shape_name(node.statement))),
    }
}

/// The entries with `pair` added at the end: the entries of a fragment take
/// its place one by one, any other entry is added under its name.
pub open spec fn spliced(
    before: Seq<(Seq<char>, EntryModel)>,
    pair: (Seq<char>, EntryModel),
) -> Seq<(Seq<char>, EntryModel)> {
    match pair.1 {
        EntryModel::Invisible(inner) => before + inner,
        _ => before.push(pair),
    }
}

/// The entries that the statements of a class body stand for, in order, or
/// the error of the first statement that stands for none.
pub open spec fn entries_model(nodes: Seq<Node>) -> Result<Seq<(Seq<char>, EntryModel)>, ErrorModel>
    decreases nodes,
{
    if nodes.len() == 0 {
        Ok(Seq::empty())
    } else {
        match entries_model(nodes.drop_last()) {
            Ok(before) => match entry_model(nodes.last()) {
                Ok(pair) => Ok(spliced(before, pair)),
                Err(error) => Err(error),
            },
            Err(error) => Err(error),
        }
    }
}

/// The root class of the document that a parsed file stands for.
pub open spec fn document_model(ast: AST) -> Result<ClassModel, ErrorModel> {
    if !ast.processed {
        Err(ErrorModel::NotProcessed)
    } else {
        match ast.config.statement {
            Statement::Config(inner) => match entries_model(inner@) {
                Ok(entries) => Ok(
                    ClassModel {
                        parent: Seq::empty(),
                        external: false,
                        deletion: false,
                        entries,
                    },
                ),
                Err(error) => Err(error),
            },
            _ => Err(ErrorModel::NotRoot),
        }
    }
}

/// Whether an entry holds no `Invisible` entry at any depth.
pub open spec fn entry_is_flat(entry: EntryModel) -> bool
    decreases entry,
{
    match entry {
        EntryModel::Invisible(_) => false,
        EntryModel::Class(class) => class_is_flat(class),
        _ => true,
    }
}

/// Whether no entry of a class, at any depth, is an `Invisible` entry.
pub open spec fn class_is_flat(class: ClassModel) -> bool
    decreases class,
{
    entries_are_flat(class.entries)
}

/// Whether no entry of a class body, at any depth, is an `Invisible` entry.
pub open spec fn entries_are_flat(entries: Seq<(Seq<char>, EntryModel)>) -> bool
    decreases entries,
{
    forall|i: int| 0 <= i < entries.len() ==> entry_is_flat(#[trigger] entries[i].1)
}

/// A statement never stands for a fragment inside a fragment: its entry
/// is flat, or it is an `Invisible` entry whose own entries are flat.
pub proof fn law_entry_is_shallow(node: Node)
    ensures
        entry_model(node) matches Ok(pair) ==> match pair.1 {
            EntryModel::Invisible(inner) => entries_are_flat(inner),
            other => entry_is_flat(other),
        },
    decreases node,
{
    match node.statement {
        Statement::Class { ident, extends, props } => {
            law_entries_are_flat(props@);
        },
        Statement::Config(inner) => {
            law_entries_are_flat(inner@);
        },
        _ => {},
    }
}

/// Flattening leaves no fragment behind: the entries collected from a class
/// body hold no `Invisible` entry at any depth.
pub proof fn law_entries_are_flat(nodes: Seq<Node>)
    ensures
        entries_model(nodes) matches Ok(entries) ==> entries_are_flat(entries),
    decreases nodes,
{
    if nodes.len() > 0 {
        law_entries_are_flat(nodes.drop_last());
        law_entry_is_shallow(nodes.last());
    }
}

/// No document holds an `Invisible` entry at any depth.
pub proof fn law_document_is_flat(ast: AST)
    ensures
        document_model(ast) matches Ok(root) ==> class_is_flat(root),
{
    if let Statement::Config(inner) = ast.config.statement {
        law_entries_are_flat(inner@);
    }
}

/// Collecting is done statement by statement and in order: the entries of
/// two class bodies written one after the other are the entries of the
/// first followed by the entries of the second, and the first error met in
/// that order is the error of the whole.
pub proof fn law_entries_keep_order(first: Seq<Node>, second: Seq<Node>)
    ensures
        entries_model(first + second) == match entries_model(first) {
            Ok(before) => match entries_model(second) {
                Ok(after) => Ok(before + after),
                Err(error) => Err(error),
            },
            Err(error) => Err(error),
        },
    decreases second.len(),
{
    if second.len() == 0 {
        assert(first + second =~= first);
        if let Ok(before) = entries_model(first) {
            assert(before + Seq::empty() =~= before);
        }
    } else {
        let whole = first + second;
        assert(whole.drop_last() =~= first + second.drop_last());
        assert(whole.last() == second.last());
        law_entries_keep_order(first, second.drop_last());
        if let Ok(before) = entries_model(first) {
            if let Ok(middle) = entries_model(second.drop_last()) {
                if let Ok(pair) = entry_model(second.last()) {
                    match pair.1 {
                        EntryModel::Invisible(inner) => {
                            assert((before + middle) + inner =~= before + (middle + inner));
                        },
                        _ => {
                            assert((before + middle).push(pair) =~= before + middle.push(pair));
                        },
                    }
                }
            }
        }
    }
}

/// A nested fragment contributes its own entries, and nothing else, at the
/// place where it stands.
pub proof fn law_fragment_is_spliced(fragment: Node)
    requires
        fragment.statement is Config,
    ensures
        entries_model(seq![fragment]) == entries_model(fragment.statement->Config_0@),
{
    let nodes = seq![fragment];
    let inner = fragment.statement->Config_0@;
    assert(nodes.drop_last() =~= Seq::empty());
    assert(nodes.last() == fragment);
    assert(entries_model(nodes.drop_last()) == Ok::<Seq<(Seq<char>, EntryModel)>, ErrorModel>(
        Seq::empty(),
    ));
    assert(entry_model(fragment) == match entries_model(inner) {
        Ok(entries) => Ok((Seq::<char>::empty(), EntryModel::Invisible(entries))),
        Err(error) => Err(error),
    });
    if let Ok(inner) = entries_model(fragment.statement->Config_0@) {
        assert(Seq::<(Seq<char>, EntryModel)>::empty() + inner =~= inner);
    }
}

/// Order is kept across an included fragment: a class body made of some
/// statements, then a fragment, then further statements has the entries
/// of the first statements, then those of the fragment, then those of the
/// rest.
pub proof fn law_order_across_fragment(before: Seq<Node>, fragment: Node, after: Seq<Node>)
    requires
        fragment.statement is Config,
        entries_model(before) is Ok,
        entries_model(fragment.statement->Config_0@) is Ok,
        entries_model(after) is Ok,
    ensures
        entries_model(before + seq![fragment] + after) == Ok::<_, ErrorModel>(
            entries_model(before)->Ok_0 + entries_model(fragment.statement->Config_0@)->Ok_0
                + entries_model(after)->Ok_0,
        ),
{
    law_fragment_is_spliced(fragment);
    law_entries_keep_order(before, seq![fragment]);
    law_entries_keep_order(before + seq![fragment], after);
}

/// An error of a prefix of an array literal is the error of the whole.
proof fn lemma_elements_prefix_error(nodes: Seq<Node>, count: int)
    requires
        0 <= count <= nodes.len(),
        elements_model(nodes.take(count)) is Err,
    ensures
        elements_model(nodes) == elements_model(nodes.take(count)),
    decreases nodes.len() - count,
{
    if count < nodes.len() {
        assert(nodes.take(count + 1).drop_last() =~= nodes.take(count));
        lemma_elements_prefix_error(nodes, count + 1);
    } else {
        assert(nodes.take(count) =~= nodes);
    }
}

/// An error of a prefix of a class body is the error of the whole.
proof fn lemma_entries_prefix_error(nodes: Seq<Node>, count: int)
    requires
        0 <= count <= nodes.len(),
        entries_model(nodes.take(count)) is Err,
    ensures
        entries_model(nodes) == entries_model(nodes.take(count)),
    decreases nodes.len() - count,
{
    if count < nodes.len() {
        assert(nodes.take(count + 1).drop_last() =~= nodes.take(count));
        lemma_entries_prefix_error(nodes, count + 1);
    } else {
        assert(nodes.take(count) =~= nodes);
    }
}

impl Entry {
    /// Narrows an entry to an array element. A class or a fragment is
    /// refused: neither can stand inside an array.
    pub fn into_element(self) -> (r: Result<ArrayElement, ArmaConfigError>)
        ensures
            match narrowed(self@) {
                Ok(element) => r matches Ok(found) && found@ == element,
                Err(error) => r matches Err(e) && e@ == error,
            },
    {
        match self {
            Entry::Str(text) => Ok(ArrayElement::Str(text)),
            Entry::Float(bits) => Ok(ArrayElement::Float(bits)),
            Entry::Int(value) => Ok(ArrayElement::Int(value)),
            Entry::Array(array) => Ok(ArrayElement::Array(array)),
            Entry::Class(_) => Err(ArmaConfigError::InternalStructuralDefect("Class".to_owned())),
            Entry::Invisible(_) => Err(
                ArmaConfigError::InternalStructuralDefect("Invisible".to_owned()),
            ),
        }
    }
}

impl Config {
    /// Whether the document is well formed: it holds no `Invisible` entry
    /// at any depth.
    pub open spec fn well_formed(&self) -> bool {
        class_is_flat(self@)
    }

    /// Simplifies a parsed file into a document.
    ///
    /// A tree that has not been macro-expanded is refused before anything
    /// of it is read, and so is a tree whose root is no `Config` statement.
    pub fn from_ast(ast: AST) -> (r: Result<Self, ArmaConfigError>)
        ensures
            match document_model(ast) {
                Ok(root) => r matches Ok(config) && config@ == root,
                Err(error) => r matches Err(e) && e@ == error,
            },
            !ast.processed ==> r matches Err(ArmaConfigError::NotProcessed),
            ast.processed && !(ast.config.statement is Config) ==> r matches Err(
                ArmaConfigError::NotRoot,
            ),
            r matches Ok(config) ==> config.well_formed(),
    {
        proof {
            law_document_is_flat(ast);
        }
        if !ast.processed {
            return Err(ArmaConfigError::NotProcessed);
        }
        match ast.config.statement {
            Statement::Config(inner) => {
                let entries = get_entries(inner)?;
                Ok(
                    Config {
                        root: Class {
                            parent: String::new(),
                            external: false,
                            deletion: false,
                            entries,
                        },
                    },
                )
            },
            _ => Err(ArmaConfigError::NotRoot),
        }
    }
}

/// Collects the entries of a class body, in order. The entries of a nested
/// fragment are spliced in where the fragment stands.
pub fn get_entries(nodes: Vec<Node>) -> (r: Result<Vec<(String, Entry)>, ArmaConfigError>)
    ensures
        match entries_model(nodes@) {
            Ok(entries) => r matches Ok(found) && pairs_view(found) == entries,
            Err(error) => r matches Err(e) && e@ == error,
        },
        r matches Ok(found) ==> entries_are_flat(pairs_view(found)),
    decreases nodes,
{
    proof {
        law_entries_are_flat(nodes@);
    }
    let ghost all = nodes@;
    let mut entries: Vec<(String, Entry)> = Vec::new();
    proof {
        assert(all.take(0) =~= Seq::empty());
        assert(pairs_view(entries) =~= Seq::empty());
    }
    for node in it: nodes
        invariant
            it.seq() == all,
            all == nodes@,
            entries_model(all.take(it.index() as int)) == Ok::<_, ErrorModel>(pairs_view(entries)),
    {
        let ghost done = it.index() as int;
        proof {
            assert(all.take(done + 1).drop_last() =~= all.take(done));
            assert(all.take(done + 1).last() == node);
        }
        match get_entry(node) {
            Ok(Some((ident, entry))) => {
                let ghost before = pairs_view(entries);
                match entry {
                    Entry::Invisible(mut inner) => {
                        let ghost added = pairs_view(inner);
                        entries.append(&mut inner);
                        assert(pairs_view(entries) =~= before + added);
                    },
                    other => {
                        let ghost pair = (ident@, other@);
                        entries.push((ident, other));
                        assert(pairs_view(entries) =~= before.push(pair));
                    },
                }
            },
            Ok(None) => {},
            Err(error) => {
                proof {
                    lemma_entries_prefix_error(all, done + 1);
                }
                return Err(error);
            },
        }
    }
    proof {
        assert(all.take(all.len() as int) =~= all);
    }
    Ok(entries)
}

/// Converts one statement of a class body into a named entry.
///
/// A nested `Config` becomes an `Invisible` entry without a name. A
/// statement of any other shape than those of a class body is a defect of
/// the tree and is refused.
pub fn get_entry(node: Node) -> (r: Result<Option<(String, Entry)>, ArmaConfigError>)
    ensures
        match entry_model(node) {
            Ok(pair) => r matches Ok(Some(found)) && (found.0@, found.1@) == pair,
            Err(error) => r matches Err(e) && e@ == error,
        },
    decreases node,
{
    match node.statement {
        Statement::Class { ident, extends, props } => {
            let entries = get_entries(props)?;
            let parent = match extends {
                Some(parent) => parent,
                None => String::new(),
            };
            let class = Class { parent, external: false, deletion: false, entries };
            assert(class@.entries == pairs_view(class.entries));
            Ok(Some((ident, Entry::Class(class))))
        },
        Statement::ClassDef(ident) => {
            let class = Class {
                parent: String::new(),
                external: true,
                deletion: false,
                entries: Vec::new(),
            };
            assert(class@.entries =~= Seq::empty());
            Ok(Some((ident, Entry::Class(class))))
        },
        Statement::Property { ident, value, expand } => {
            let entry = get_value(value.statement, expand)?;
            Ok(Some((ident, entry)))
        },
        Statement::Config(inner) => {
            let entries = get_entries(inner)?;
            Ok(Some((String::new(), Entry::Invisible(entries))))
        },
        other => Err(ArmaConfigError::InternalStructuralDefect(other.shape())),
    }
}

/// Converts the value of a property into an entry. Only the literal shapes
/// are values; `expand` is recorded in an array.
pub fn get_value(statement: Statement, expand: bool) -> (r: Result<Entry, ArmaConfigError>)
    ensures
        match value_model(statement, expand) {
            Ok(entry) => r matches Ok(found) && found@ == entry,
            Err(error) => r matches Err(e) && e@ == error,
        },
    decreases statement,
{
    match statement {
        Statement::Integer(value) => Ok(Entry::Int(value)),
        Statement::Float(bits) => Ok(Entry::Float(bits)),
        Statement::Str(text) => Ok(Entry::Str(text)),
        Statement::Array(nodes) => {
            let elements = get_array(nodes)?;
            Ok(Entry::Array(Array { expand, elements }))
        },
        other => Err(ArmaConfigError::InvalidProperty(other.shape())),
    }
}

/// Converts the nodes of an array literal into array elements, in order.
/// An element that is written as a property stands for its value, and
/// keeps its own append flag; every other element has the flag unset.
pub fn get_array(nodes: Vec<Node>) -> (r: Result<Vec<ArrayElement>, ArmaConfigError>)
    ensures
        match elements_model(nodes@) {
            Ok(elements) => r matches Ok(found) && elements_view(found) == elements,
            Err(error) => r matches Err(e) && e@ == error,
        },
    decreases nodes,
{
    let ghost all = nodes@;
    let mut elements: Vec<ArrayElement> = Vec::new();
    proof {
        assert(all.take(0) =~= Seq::empty());
        assert(elements_view(elements) =~= Seq::empty());
    }
    for node in it: nodes
        invariant
            it.seq() == all,
            all == nodes@,
            elements_model(all.take(it.index() as int)) == Ok::<_, ErrorModel>(
                elements_view(elements),
            ),
    {
        let ghost done = it.index() as int;
        let ghost before = elements_view(elements);
        proof {
            assert(all.take(done + 1).drop_last() =~= all.take(done));
            assert(all.take(done + 1).last() == node);
        }
        let value = match node.statement {
            Statement::Property { ident: _, value, expand } => get_value(value.statement, expand),
            other => get_value(other, false),
        };
        let converted = match value {
            Ok(entry) => entry.into_element(),
            Err(error) => Err(error),
        };
        proof {
            assert(element_model(node) == match (match node.statement {
                Statement::Property { value, expand, .. } => value_model(value.statement, expand),
                _ => value_model(node.statement, false),
            }) {
                Ok(entry) => narrowed(entry),
                Err(error) => Err(error),
            });
        }
        match converted {
            Ok(element) => {
                let ghost added = element@;
                elements.push(element);
                assert(elements_view(elements) =~= before.push(added));
            },
            Err(error) => {
                proof {
                    lemma_elements_prefix_error(all, done + 1);
                }
                return Err(error);
            },
        }
    }
    proof {
        assert(all.take(all.len() as int) =~= all);
    }
    Ok(elements)
}

} // verus!
