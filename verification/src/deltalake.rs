//! The columnar-storage target.
//!
//! A client holds the connection parameters for a storage table: where it
//! lives, how to reach it, and what to do when it does not exist yet.
//! Connecting first tries to open the table; when that fails and the
//! configuration both allows creation and carries a schema, the table is
//! created with that schema.  The decision and the schema translation are
//! verified here; the storage calls themselves happen at the edge of the
//! program, which follows the returned plan.

use vstd::prelude::*;

verus! {

/// Errors raised by client configuration and connection planning.
#[derive(Debug)]
pub enum Error {
    /// A required attribute was not provided to the builder.
    MissingRequiredAttribute(String),
    /// The configured table path is missing or unusable.
    MissingPath,
    /// The configured table path holds no file name.
    EmptyFileName,
    /// An expected string value was empty.
    EmptyStr,
}

/// A column type of the storage table's schema.
#[derive(Debug, Clone, Copy, PartialEq, Eq, Structural)]
pub enum DataType {
    /// UTF-8 text.
    Utf8,
}

/// The write strategy of the writer.
#[derive(Debug, Clone, Copy, PartialEq, Eq, Structural)]
pub enum Operation {
    /// New rows are appended to the table.
    Append,
    /// New rows are merged with existing rows by the configured predicate.
    Merge,
}

impl Default for Operation {
    /// The default write strategy: append.
    fn default() -> (r: Operation)
        ensures
            r == Operation::Append,
    {
        Operation::Append
    }
}

/// One column of the schema used when the table must be created.
pub struct Column {
    /// The column's name.
    pub name: Vec<u8>,
    /// The column's type.
    pub data_type: DataType,
    /// Whether the column admits missing values.
    pub nullable: bool,
}

/// Options for creating the table when it does not exist.
pub struct CreateOptions {
    /// Whether an absent table may be created at all.
    pub create_if_not_exist: bool,
    /// The schema to create it with.
    pub columns: Option<Vec<Column>>,
}

/// Configuration of the storage writer.
pub struct Writer {
    /// Credentials for the table's storage.
    pub credentials: Vec<u8>,
    /// The table's location.
    pub path: Vec<u8>,
    /// The write strategy.
    pub operation: Operation,
    /// How source and target rows are matched when merging.
    pub predicate: Option<Vec<u8>>,
    /// What to do when the table does not exist.
    pub create_options: CreateOptions,
}

/// A primitive type of the storage engine's schema language.
#[derive(Debug, Clone, Copy, PartialEq, Eq, Structural)]
pub enum PrimitiveType {
    /// Text.
    String,
}

/// One schema entry handed to the storage engine when creating the table.
pub struct StructField {
    /// The field's name.
    pub name: Vec<u8>,
    /// The field's primitive type.
    pub data_type: PrimitiveType,
    /// Whether the field admits missing values.
    pub nullable: bool,
}

/// What the connection attempt decided.
pub enum Plan {
    /// The table exists; use it.
    UseExisting,
    /// The table is absent; create it with this schema.
    Create(Vec<StructField>),
    /// The table is absent and may not be created; the client stays without
    /// a table.
    NoTable,
}

/// The translation of one configured column into the storage engine's
/// schema language.
pub open spec fn spec_translate_column(c: Column) -> StructField {
    StructField {
        name: c.name,
        data_type: match c.data_type {
            DataType::Utf8 => PrimitiveType::String,
        },
        nullable: c.nullable,
    }
}

/// A client of one storage table.
pub struct Client {
    credentials: Vec<u8>,
    path: Vec<u8>,
    create_options: Option<CreateOptions>,
    table_open: bool,
}

impl Client {
    /// The configured credentials.
    pub closed spec fn spec_credentials(&self) -> Seq<u8> {
        self.credentials@
    }

    /// The configured table location.
    pub closed spec fn spec_path(&self) -> Seq<u8> {
        self.path@
    }

    /// The configured creation options.
    pub closed spec fn spec_create_options(&self) -> Option<CreateOptions> {
        self.create_options
    }

    /// Whether a table is attached.
    pub closed spec fn spec_table_open(&self) -> bool {
        self.table_open
    }

    /// Decide what to do after the attempt to open the table: an open table
    /// is used as it is; an absent one is created exactly when creation is
    /// allowed and a schema is configured, with the configured columns
    /// translated; otherwise the client stays without a table.
    pub fn connect(self, opened: bool) -> (r: (Client, Plan))
        ensures
            r.0.spec_credentials() == self.spec_credentials(),
            r.0.spec_path() == self.spec_path(),
            r.0.spec_create_options() == self.spec_create_options(),
            opened ==> (r.1 is UseExisting && r.0.spec_table_open()),
            !opened ==> (match self.spec_create_options() {
                Some(co) => {
                    if co.create_if_not_exist && co.columns is Some {
                        &&& r.1 matches Plan::Create(fields) && fields@.map_values(
                            |f: StructField| f@,
                        ) == co.columns->0@.map_values(
                            |c: Column| spec_translate_column(c)@,
                        )
                        &&& r.0.spec_table_open()
                    } else {
                        r.1 is NoTable && !r.0.spec_table_open()
                    }
                },
                None => r.1 is NoTable && !r.0.spec_table_open(),
            }),
    {
        if opened {
            let c = Client { table_open: true, ..self };
            (c, Plan::UseExisting)
        } else {
            let create = match &self.create_options {
                Some(co) => co.create_if_not_exist && co.columns.is_some(),
                None => false,
            };
            if create {
                let mut fields: Vec<StructField> = Vec::new();
                match &self.create_options {
                    Some(co) => match &co.columns {
                        Some(cols) => {
                            let mut i: usize = 0;
                            while i < cols.len()
                                invariant
                                    i <= cols@.len(),
                                    fields@.len() == i,
                                    forall|j: int|
                                        0 <= j < i ==> (#[trigger] fields@[j])@
                                            == spec_translate_column(cols@[j])@,
                                decreases cols@.len() - i,
                            {
                                let c = &cols[i];
                                let f = StructField {
                                    name: crate::text::clone_bytes(&c.name),
                                    data_type: match c.data_type {
                                        DataType::Utf8 => PrimitiveType::String,
                                    },
                                    nullable: c.nullable,
                                };
                                proof {
                                    assert(f@ =~= spec_translate_column(cols@[i as int])@);
                                }
                                fields.push(f);
                                i = i + 1;
                            }
                        },
                        None => {},
                    },
                    None => {},
                }
                proof {
                    match self.spec_create_options() {
                        Some(co) => {
                            assert(fields@.map_values(|f: StructField| f@)
                                =~= co.columns->0@.map_values(
                                |c: Column| spec_translate_column(c)@,
                            ));
                        },
                        None => {},
                    }
                }
                let c = Client { table_open: true, ..self };
                (c, Plan::Create(fields))
            } else {
                let c = Client { table_open: false, ..self };
                (c, Plan::NoTable)
            }
        }
    }
}

/// The model of one translated schema entry.
#[verifier::ext_equal]
pub struct StructFieldView {
    pub name: Seq<u8>,
    pub data_type: PrimitiveType,
    pub nullable: bool,
}

impl View for StructField {
    type V = StructFieldView;

    open spec fn view(&self) -> StructFieldView {
        StructFieldView { name: self.name@, data_type: self.data_type, nullable: self.nullable }
    }
}

/// Builder for a [`Client`].
pub struct ClientBuilder {
    credentials: Option<Vec<u8>>,
    path: Option<Vec<u8>>,
    create_options: Option<CreateOptions>,
}

impl ClientBuilder {
    /// The credentials set so far.
    pub closed spec fn spec_credentials(&self) -> Option<Seq<u8>> {
        match self.credentials {
            Some(ref c) => Some(c@),
            None => None,
        }
    }

    /// The path set so far.
    pub closed spec fn spec_path(&self) -> Option<Seq<u8>> {
        match self.path {
            Some(ref p) => Some(p@),
            None => None,
        }
    }

    /// The creation options set so far.
    pub closed spec fn spec_create_options(&self) -> Option<CreateOptions> {
        self.create_options
    }

    /// Creates a new `ClientBuilder` with nothing set.
    pub fn new() -> (r: ClientBuilder)
        ensures
            r.spec_credentials() is None,
            r.spec_path() is None,
            r.spec_create_options() is None,
    {
        ClientBuilder { credentials: None, path: None, create_options: None }
    }

    /// Sets the credentials for the table's storage.
    pub fn credentials(self, credentials: Vec<u8>) -> (r: ClientBuilder)
        ensures
            r.spec_credentials() == Some(credentials@),
            r.spec_path() == self.spec_path(),
            r.spec_create_options() == self.spec_create_options(),
    {
        ClientBuilder { credentials: Some(credentials), ..self }
    }

    /// Sets the table's location.
    pub fn path(self, path: Vec<u8>) -> (r: ClientBuilder)
        ensures
            r.spec_path() == Some(path@),
            r.spec_credentials() == self.spec_credentials(),
            r.spec_create_options() == self.spec_create_options(),
    {
        ClientBuilder { path: Some(path), ..self }
    }

    /// Sets what to do when the table does not exist.  The options only
    /// matter to a later `connect`, and only when the table is absent.
    pub fn create_options(self, create_options: CreateOptions) -> (r: ClientBuilder)
        ensures
            r.spec_create_options() == Some(create_options),
            r.spec_credentials() == self.spec_credentials(),
            r.spec_path() == self.spec_path(),
    {
        ClientBuilder { create_options: Some(create_options), ..self }
    }

    /// Builds the `Client`, not yet connected to any table.  Fails when the
    /// required credentials or path were not provided, naming whichever is
    /// missing, the credentials first.
    pub fn build(self) -> (r: Result<Client, Error>)
        ensures
            r is Ok <==> (self.spec_credentials() is Some && self.spec_path() is Some),
            r matches Ok(c) ==> {
                &&& Some(c.spec_credentials()) == self.spec_credentials()
                &&& Some(c.spec_path()) == self.spec_path()
                &&& c.spec_create_options() == self.spec_create_options()
                &&& !c.spec_table_open()
            },
            r matches Err(e) ==> e matches Error::MissingRequiredAttribute(s) && (
            if self.spec_credentials() is None {
                s@ == "credentials"@
            } else {
                s@ == "path"@
            }),
    {
        let credentials = match self.credentials {
            Some(c) => c,
            None => {
                return Err(Error::MissingRequiredAttribute("credentials".to_owned()));
            },
        };
        let path = match self.path {
            Some(p) => p,
            None => {
                return Err(Error::MissingRequiredAttribute("path".to_owned()));
            },
        };
        Ok(Client { credentials, path, create_options: self.create_options, table_open: false })
    }
}

} // verus!
