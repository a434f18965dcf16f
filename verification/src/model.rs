//! The shared data model: the knowledge graph of one analysed project.
//!
//! Every analyzer writes here; documentation, diagrams and search read only
//! from here. Typed entities (components, endpoints, services, tables...) live
//! beside a list of generic [`Relation`]s, so the graph stays extensible.

use vstd::prelude::*;
use crate::text::{copy_strings, opt_view, owned, views};

verus! {

/// The complete result of analysing a project.
pub struct Project {
    /// Root folder that was analysed.
    pub root: String,
    /// Project name (usually the folder name).
    pub name: String,
    /// Code components: C# namespaces, Java packages, modules, classes.
    pub components: Vec<Component>,
    /// HTTP endpoints (OpenAPI/Swagger).
    pub endpoints: Vec<Endpoint>,
    /// Runnable units/services (Docker Compose, Kubernetes manifests).
    pub services: Vec<ServiceUnit>,
    /// Database tables (from SQL DDL or live introspection).
    pub tables: Vec<Table>,
    /// Declared dependencies (NuGet, Maven, npm...).
    pub dependencies: Vec<Dependency>,
    /// Generic edges of the graph (calls, depends-on, references...).
    pub relations: Vec<Relation>,
    /// Summary statistics.
    pub stats: Stats,
}

/// Language detected for a component.
#[derive(Clone, Copy, Debug, PartialEq, Eq, Structural)]
pub enum Language {
    CSharp,
    Java,
    TypeScript,
    Python,
    Go,
    Sql,
    Yaml,
    Json,
    Other,
}

/// Granularity of a code component.
#[derive(Clone, Copy, Debug, PartialEq, Eq, Structural)]
pub enum ComponentKind {
    Namespace,
    Package,
    Class,
    Interface,
    Module,
}

/// A code component (class, namespace, package...).
pub struct Component {
    pub id: String,
    pub name: String,
    pub kind: ComponentKind,
    pub language: Language,
    /// File path relative to the project root.
    pub path: String,
    /// Relevant members (methods) for class diagrams.
    pub members: Vec<String>,
}

/// An HTTP endpoint (from OpenAPI/Swagger).
pub struct Endpoint {
    pub id: String,
    pub method: String,
    pub path: String,
    pub operation_id: Option<String>,
    pub summary: Option<String>,
    /// File the definition comes from.
    pub source: String,
}

/// A runnable unit/service (Compose or Kubernetes).
pub struct ServiceUnit {
    pub id: String,
    pub name: String,
    pub image: Option<String>,
    pub ports: Vec<String>,
    pub depends_on: Vec<String>,
    /// Origin: "docker-compose:..." or "kubernetes:...".
    pub source: String,
}

/// A table column.
pub struct Column {
    pub name: String,
    pub data_type: String,
    pub nullable: bool,
    pub primary_key: bool,
}

/// A foreign key towards another table.
pub struct ForeignKey {
    pub column: String,
    pub references_table: String,
    pub references_column: String,
}

/// A database table.
pub struct Table {
    pub id: String,
    pub name: String,
    pub schema: Option<String>,
    pub columns: Vec<Column>,
    pub foreign_keys: Vec<ForeignKey>,
}

/// A dependency declared in a manifest of the project.
pub struct Dependency {
    pub name: String,
    pub version: Option<String>,
    /// Ecosystem: "NuGet", "Maven", "npm"...
    pub ecosystem: String,
    /// Manifest file where it is declared.
    pub declared_in: String,
}

/// Kind of an edge of the graph.
#[derive(Clone, Copy, Debug, PartialEq, Eq, Structural)]
pub enum RelationKind {
    DependsOn,
    Exposes,
    References,
    Contains,
    /// A type calls a method that belongs to another type (call graph).
    Calls,
}

/// A generic edge of the knowledge graph.
pub struct Relation {
    pub from: String,
    pub to: String,
    pub kind: RelationKind,
}

/// Summary statistics of the project.
pub struct Stats {
    pub files: usize,
    pub lines_of_code: usize,
    /// Number of files per extension (e.g. "cs" -> 120), sorted by extension
    /// with each extension once, as a `BTreeMap` keeps them.
    pub by_extension: Vec<(String, usize)>,
}


// ---------------------------------------------------------------------------
// Mathematical views
// ---------------------------------------------------------------------------

pub struct ComponentV {
    pub id: Seq<char>,
    pub name: Seq<char>,
    pub kind: ComponentKind,
    pub language: Language,
    pub path: Seq<char>,
    pub members: Seq<Seq<char>>,
}

pub struct EndpointV {
    pub id: Seq<char>,
    pub method: Seq<char>,
    pub path: Seq<char>,
    pub operation_id: Option<Seq<char>>,
    pub summary: Option<Seq<char>>,
    pub source: Seq<char>,
}

pub struct ServiceV {
    pub id: Seq<char>,
    pub name: Seq<char>,
    pub image: Option<Seq<char>>,
    pub ports: Seq<Seq<char>>,
    pub depends_on: Seq<Seq<char>>,
    pub source: Seq<char>,
}

pub struct ColumnV {
    pub name: Seq<char>,
    pub data_type: Seq<char>,
    pub nullable: bool,
    pub primary_key: bool,
}

pub struct ForeignKeyV {
    pub column: Seq<char>,
    pub references_table: Seq<char>,
    pub references_column: Seq<char>,
}

pub struct TableV {
    pub id: Seq<char>,
    pub name: Seq<char>,
    pub schema: Option<Seq<char>>,
    pub columns: Seq<ColumnV>,
    pub foreign_keys: Seq<ForeignKeyV>,
}

pub struct DependencyV {
    pub name: Seq<char>,
    pub version: Option<Seq<char>>,
    pub ecosystem: Seq<char>,
    pub declared_in: Seq<char>,
}

pub struct RelationV {
    pub from: Seq<char>,
    pub to: Seq<char>,
    pub kind: RelationKind,
}

pub struct StatsV {
    pub files: nat,
    pub lines_of_code: nat,
    pub by_extension: Seq<(Seq<char>, nat)>,
}

pub struct ProjectV {
    pub root: Seq<char>,
    pub name: Seq<char>,
    pub components: Seq<ComponentV>,
    pub endpoints: Seq<EndpointV>,
    pub services: Seq<ServiceV>,
    pub tables: Seq<TableV>,
    pub dependencies: Seq<DependencyV>,
    pub relations: Seq<RelationV>,
    pub stats: StatsV,
}

impl View for Component {
    type V = ComponentV;

    open spec fn view(&self) -> ComponentV {
        ComponentV {
            id: self.id@,
            name: self.name@,
            kind: self.kind,
            language: self.language,
            path: self.path@,
            members: views(self.members@),
        }
    }
}

impl View for Endpoint {
    type V = EndpointV;

    open spec fn view(&self) -> EndpointV {
        EndpointV {
            id: self.id@,
            method: self.method@,
            path: self.path@,
            operation_id: opt_view(self.operation_id),
            summary: opt_view(self.summary),
            source: self.source@,
        }
    }
}

impl View for ServiceUnit {
    type V = ServiceV;

    open spec fn view(&self) -> ServiceV {
        ServiceV {
            id: self.id@,
            name: self.name@,
            image: opt_view(self.image),
            ports: views(self.ports@),
            depends_on: views(self.depends_on@),
            source: self.source@,
        }
    }
}

impl View for Column {
    type V = ColumnV;

    open spec fn view(&self) -> ColumnV {
        ColumnV {
            name: self.name@,
            data_type: self.data_type@,
            nullable: self.nullable,
            primary_key: self.primary_key,
        }
    }
}

impl View for ForeignKey {
    type V = ForeignKeyV;

    open spec fn view(&self) -> ForeignKeyV {
        ForeignKeyV {
            column: self.column@,
            references_table: self.references_table@,
            references_column: self.references_column@,
        }
    }
}

impl View for Table {
    type V = TableV;

    open spec fn view(&self) -> TableV {
        TableV {
            id: self.id@,
            name: self.name@,
            schema: opt_view(self.schema),
            columns: self.columns@.map_values(|c: Column| c@),
            foreign_keys: self.foreign_keys@.map_values(|f: ForeignKey| f@),
        }
    }
}

impl View for Dependency {
    type V = DependencyV;

    open spec fn view(&self) -> DependencyV {
        DependencyV {
            name: self.name@,
            version: opt_view(self.version),
            ecosystem: self.ecosystem@,
            declared_in: self.declared_in@,
        }
    }
}

impl View for Relation {
    type V = RelationV;

    open spec fn view(&self) -> RelationV {
        RelationV { from: self.from@, to: self.to@, kind: self.kind }
    }
}

pub open spec fn ext_counts_view(v: Seq<(String, usize)>) -> Seq<(Seq<char>, nat)> {
    v.map_values(|e: (String, usize)| (e.0@, e.1 as nat))
}

impl View for Stats {
    type V = StatsV;

    open spec fn view(&self) -> StatsV {
        StatsV {
            files: self.files as nat,
            lines_of_code: self.lines_of_code as nat,
            by_extension: ext_counts_view(self.by_extension@),
        }
    }
}

pub open spec fn components_view(v: Seq<Component>) -> Seq<ComponentV> {
    v.map_values(|c: Component| c@)
}

pub open spec fn endpoints_view(v: Seq<Endpoint>) -> Seq<EndpointV> {
    v.map_values(|e: Endpoint| e@)
}

pub open spec fn services_view(v: Seq<ServiceUnit>) -> Seq<ServiceV> {
    v.map_values(|s: ServiceUnit| s@)
}

pub open spec fn tables_view(v: Seq<Table>) -> Seq<TableV> {
    v.map_values(|t: Table| t@)
}

pub open spec fn dependencies_view(v: Seq<Dependency>) -> Seq<DependencyV> {
    v.map_values(|d: Dependency| d@)
}

pub open spec fn relations_view(v: Seq<Relation>) -> Seq<RelationV> {
    v.map_values(|r: Relation| r@)
}

impl View for Project {
    type V = ProjectV;

    open spec fn view(&self) -> ProjectV {
        ProjectV {
            root: self.root@,
            name: self.name@,
            components: components_view(self.components@),
            endpoints: endpoints_view(self.endpoints@),
            services: services_view(self.services@),
            tables: tables_view(self.tables@),
            dependencies: dependencies_view(self.dependencies@),
            relations: relations_view(self.relations@),
            stats: self.stats@,
        }
    }
}

impl Project {
    /// An empty project attached to a root folder.
    pub fn new(root: &str, name: &str) -> (p: Project)
        ensures
            p.root@ == root@,
            p.name@ == name@,
            p.components@.len() == 0,
            p.endpoints@.len() == 0,
            p.services@.len() == 0,
            p.tables@.len() == 0,
            p.dependencies@.len() == 0,
            p.relations@.len() == 0,
            p.stats.files == 0,
            p.stats.lines_of_code == 0,
            p.stats.by_extension@.len() == 0,
    {
        Project {
            root: owned(root),
            name: owned(name),
            components: Vec::new(),
            endpoints: Vec::new(),
            services: Vec::new(),
            tables: Vec::new(),
            dependencies: Vec::new(),
            relations: Vec::new(),
            stats: Stats { files: 0, lines_of_code: 0, by_extension: Vec::new() },
        }
    }
}

impl Component {
    pub fn copy(&self) -> (r: Component)
        ensures
            r.id == self.id,
            r.name == self.name,
            r.kind == self.kind,
            r.language == self.language,
            r.path == self.path,
            r.members@ == self.members@,
    {
        Component {
            id: self.id.clone(),
            name: self.name.clone(),
            kind: self.kind,
            language: self.language,
            path: self.path.clone(),
            members: copy_strings(&self.members),
        }
    }
}

impl Endpoint {
    pub fn copy(&self) -> (r: Endpoint)
        ensures
            r == *self,
    {
        Endpoint {
            id: self.id.clone(),
            method: self.method.clone(),
            path: self.path.clone(),
            operation_id: self.operation_id.clone(),
            summary: self.summary.clone(),
            source: self.source.clone(),
        }
    }
}

impl Column {
    pub fn copy(&self) -> (r: Column)
        ensures
            r == *self,
    {
        Column {
            name: self.name.clone(),
            data_type: self.data_type.clone(),
            nullable: self.nullable,
            primary_key: self.primary_key,
        }
    }
}

impl ForeignKey {
    pub fn copy(&self) -> (r: ForeignKey)
        ensures
            r == *self,
    {
        ForeignKey {
            column: self.column.clone(),
            references_table: self.references_table.clone(),
            references_column: self.references_column.clone(),
        }
    }
}

impl Relation {
    pub fn copy(&self) -> (r: Relation)
        ensures
            r == *self,
    {
        Relation { from: self.from.clone(), to: self.to.clone(), kind: self.kind }
    }
}

/// The name `Debug` prints for a component kind.
pub open spec fn kind_name(k: ComponentKind) -> Seq<char> {
    match k {
        ComponentKind::Namespace => "Namespace"@,
        ComponentKind::Package => "Package"@,
        ComponentKind::Class => "Class"@,
        ComponentKind::Interface => "Interface"@,
        ComponentKind::Module => "Module"@,
    }
}

pub fn kind_debug(k: ComponentKind) -> (r: String)
    ensures
        r@ == kind_name(k),
{
    match k {
        ComponentKind::Namespace => "Namespace".to_string(),
        ComponentKind::Package => "Package".to_string(),
        ComponentKind::Class => "Class".to_string(),
        ComponentKind::Interface => "Interface".to_string(),
        ComponentKind::Module => "Module".to_string(),
    }
}

/// The name `Debug` prints for a language.
pub open spec fn language_name(l: Language) -> Seq<char> {
    match l {
        Language::CSharp => "CSharp"@,
        Language::Java => "Java"@,
        Language::TypeScript => "TypeScript"@,
        Language::Python => "Python"@,
        Language::Go => "Go"@,
        Language::Sql => "Sql"@,
        Language::Yaml => "Yaml"@,
        Language::Json => "Json"@,
        Language::Other => "Other"@,
    }
}

pub fn language_debug(l: Language) -> (r: String)
    ensures
        r@ == language_name(l),
{
    match l {
        Language::CSharp => "CSharp".to_string(),
        Language::Java => "Java".to_string(),
        Language::TypeScript => "TypeScript".to_string(),
        Language::Python => "Python".to_string(),
        Language::Go => "Go".to_string(),
        Language::Sql => "Sql".to_string(),
        Language::Yaml => "Yaml".to_string(),
        Language::Json => "Json".to_string(),
        Language::Other => "Other".to_string(),
    }
}

} // verus!
