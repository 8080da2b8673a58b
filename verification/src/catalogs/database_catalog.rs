//! Two catalogs in layers: an upper layer that is only read, and a lower
//! layer that takes the writes. This module holds the two layers and what
//! is decided between them; the calls into the layers are made by the
//! owner of the catalog, who hands their results back.

use crate::error::ErrorCode;
use crate::error::ErrorKind;
use crate::text::str_eq;
use crate::text::to_uppercase;
use crate::text::uppercase_of;
use vstd::prelude::*;
use vstd::string::StringExecFns;

verus! {

/// Two catalogs combined: reads go to the upper layer first and to the
/// lower layer if need be, writes go to the lower layer.
pub struct DatabaseCatalog<I, M, F> {
    /// The upper layer, which is only read.
    immutable_catalog: I,
    /// The lower layer, which takes the writes.
    mutable_catalog: M,
    /// The factories of the table functions.
    table_function_factory: F,
}

/// What a catalog is asked to do.
#[derive(Clone, Copy, Debug, PartialEq, Eq, Structural)]
pub enum CatalogOperation {
    GetDatabase,
    ListDatabases,
    CreateDatabase,
    DropDatabase,
    RenameDatabase,
    GetTableByInfo,
    GetTableMetaById,
    GetTable,
    ListTables,
    ListTablesHistory,
    CreateTable,
    DropTable,
    UndropTable,
    UndropDatabase,
    RenameTable,
    CountTables,
    UpsertTableOption,
    UpdateTableMeta,
}

/// One of the two layers.
#[derive(Clone, Copy, Debug, PartialEq, Eq, Structural)]
pub enum Layer {
    Immutable,
    Mutable,
}

/// What to do once the upper layer has answered a read.
#[derive(Debug, PartialEq, Eq)]
pub enum Lookup<T> {
    /// The upper layer has what was asked for.
    Found(T),
    /// The lower layer is to be asked.
    TryMutable,
    /// The read fails with the error of the upper layer.
    Failed(ErrorCode),
}

impl CatalogOperation {
    /// Whether the operation takes a tenant, which must not be empty.
    pub open spec fn takes_tenant(self) -> bool {
        !(self is GetTableByInfo || self is GetTableMetaById || self is UpsertTableOption
            || self is UpdateTableMeta)
    }

    /// Whether a read that the upper layer fails with an error of kind
    /// `kind` goes on to the lower layer: a database or the tables of a
    /// database where the upper layer does not know the database, a table
    /// given by its description where it does not know the table, and the
    /// description of a table given by its number after any error.
    pub open spec fn falls_back(self, kind: ErrorKind) -> bool {
        match self {
            CatalogOperation::GetDatabase
            | CatalogOperation::GetTable
            | CatalogOperation::ListTables
            | CatalogOperation::ListTablesHistory => kind == ErrorKind::UnknownDatabase,
            CatalogOperation::GetTableByInfo => kind == ErrorKind::UnknownTable,
            CatalogOperation::GetTableMetaById => true,
            _ => false,
        }
    }

    /// The layer that takes a write, given whether the upper layer holds
    /// the database that is written to, and, for a renaming, the database
    /// of the new name.
    ///
    /// Nothing is created in a database of the upper layer's name, and no
    /// table is renamed from or to the upper layer: these are errors. Any
    /// other write goes to the layer that holds the database.
    pub open spec fn write_layer(self, in_upper: bool, target_in_upper: bool) -> Result<Layer, ErrorKind> {
        match self {
            CatalogOperation::CreateDatabase => if in_upper {
                Err(ErrorKind::DatabaseAlreadyExists)
            } else {
                Ok(Layer::Mutable)
            },
            CatalogOperation::DropDatabase
            | CatalogOperation::CreateTable
            | CatalogOperation::DropTable
            | CatalogOperation::UndropTable
            | CatalogOperation::UndropDatabase => if in_upper {
                Ok(Layer::Immutable)
            } else {
                Ok(Layer::Mutable)
            },
            CatalogOperation::RenameDatabase => if in_upper || target_in_upper {
                Ok(Layer::Immutable)
            } else {
                Ok(Layer::Mutable)
            },
            CatalogOperation::RenameTable => if in_upper || target_in_upper {
                Err(ErrorKind::UnImplement)
            } else {
                Ok(Layer::Mutable)
            },
            _ => Ok(Layer::Mutable),
        }
    }

    fn tenant_message(self) -> (m: &'static str)
        ensures
            m@ == self.tenant_text(),
    {
        match self {
            CatalogOperation::GetDatabase => "Tenant can not empty(while get database)",
            CatalogOperation::ListDatabases => "Tenant can not empty(while list databases)",
            CatalogOperation::CreateDatabase => "Tenant can not empty(while create database)",
            CatalogOperation::DropDatabase => "Tenant can not empty(while drop database)",
            CatalogOperation::RenameDatabase => "Tenant can not empty(while rename database)",
            CatalogOperation::GetTable => "Tenant can not empty(while get table)",
            CatalogOperation::ListTables => "Tenant can not empty(while list tables)",
            CatalogOperation::ListTablesHistory => "Tenant can not empty(while list tables)",
            CatalogOperation::CreateTable => "Tenant can not empty(while create table)",
            CatalogOperation::DropTable => "Tenant can not empty(while drop table)",
            CatalogOperation::UndropTable => "Tenant can not empty(while undrop table)",
            CatalogOperation::UndropDatabase => "Tenant can not empty(while undrop database)",
            CatalogOperation::RenameTable => "Tenant can not empty(while rename table)",
            CatalogOperation::CountTables => "Tenant can not empty(while count tables)",
            _ => "Tenant can not empty",
        }
    }

    /// The text of the error that refuses an empty tenant: it names what
    /// was asked for. The two listings of tables share one text.
    pub open spec fn tenant_text(self) -> Seq<char> {
        match self {
            CatalogOperation::GetDatabase => "Tenant can not empty(while get database)"@,
            CatalogOperation::ListDatabases => "Tenant can not empty(while list databases)"@,
            CatalogOperation::CreateDatabase => "Tenant can not empty(while create database)"@,
            CatalogOperation::DropDatabase => "Tenant can not empty(while drop database)"@,
            CatalogOperation::RenameDatabase => "Tenant can not empty(while rename database)"@,
            CatalogOperation::GetTable => "Tenant can not empty(while get table)"@,
            CatalogOperation::ListTables => "Tenant can not empty(while list tables)"@,
            CatalogOperation::ListTablesHistory => "Tenant can not empty(while list tables)"@,
            CatalogOperation::CreateTable => "Tenant can not empty(while create table)"@,
            CatalogOperation::DropTable => "Tenant can not empty(while drop table)"@,
            CatalogOperation::UndropTable => "Tenant can not empty(while undrop table)"@,
            CatalogOperation::UndropDatabase => "Tenant can not empty(while undrop database)"@,
            CatalogOperation::RenameTable => "Tenant can not empty(while rename table)"@,
            CatalogOperation::CountTables => "Tenant can not empty(while count tables)"@,
            _ => "Tenant can not empty"@,
        }
    }
}

/// The name `name` as it is looked up in the database `db_name`: in upper
/// case where the names of the database are not case sensitive.
pub open spec fn routed(name: Seq<char>, db_name: Seq<char>) -> Seq<char> {
    if uppercase_of(db_name) == "INFORMATION_SCHEMA"@ {
        uppercase_of(name)
    } else {
        name
    }
}

impl<I, M, F> DatabaseCatalog<I, M, F> {
    /// The upper layer.
    pub closed spec fn upper(self) -> I {
        self.immutable_catalog
    }

    /// The lower layer.
    pub closed spec fn lower(self) -> M {
        self.mutable_catalog
    }

    /// The factories of the table functions.
    pub closed spec fn factory(self) -> F {
        self.table_function_factory
    }

    /// The catalog with `immutable_catalog` as the upper layer and
    /// `mutable_catalog` as the lower.
    pub fn create(immutable_catalog: I, mutable_catalog: M, table_function_factory: F) -> (r: Self)
        ensures
            r.upper() == immutable_catalog,
            r.lower() == mutable_catalog,
            r.factory() == table_function_factory,
    {
        DatabaseCatalog { immutable_catalog, mutable_catalog, table_function_factory }
    }

    pub fn immutable_catalog(&self) -> (c: &I)
        ensures
            *c == self.upper(),
    {
        &self.immutable_catalog
    }

    pub fn mutable_catalog(&self) -> (c: &M)
        ensures
            *c == self.lower(),
    {
        &self.mutable_catalog
    }

    pub fn table_function_factory(&self) -> (f: &F)
        ensures
            *f == self.factory(),
    {
        &self.table_function_factory
    }

    /// Whether the names in the database `db` are not case sensitive: the
    /// name of the database is `INFORMATION_SCHEMA`, in letters of any
    /// case.
    pub fn is_case_insensitive_db(db: &str) -> (r: bool)
        ensures
            r == (uppercase_of(db@) == "INFORMATION_SCHEMA"@),
    {
        let upper = to_uppercase(db);
        str_eq(upper.as_str(), "INFORMATION_SCHEMA")
    }

    /// The name `name` as it is looked up in the database `db_name`.
    pub fn routed_name(name: &str, db_name: &str) -> (r: String)
        ensures
            r@ == routed(name@, db_name@),
    {
        if Self::is_case_insensitive_db(db_name) {
            to_uppercase(name)
        } else {
            String::from_str(name)
        }
    }

    /// Refuses an empty tenant for the operations that take one, with an
    /// error that names the operation.
    pub fn check_tenant(operation: CatalogOperation, tenant: &str) -> (r: Result<(), ErrorCode>)
        ensures
            (operation.takes_tenant() && tenant@.len() == 0) ==> r is Err && r->Err_0.kind
                == ErrorKind::TenantIsEmpty && r->Err_0.message@ == operation.tenant_text(),
            !(operation.takes_tenant() && tenant@.len() == 0) ==> r is Ok,
    {
        let takes = match operation {
            CatalogOperation::GetTableByInfo
            | CatalogOperation::GetTableMetaById
            | CatalogOperation::UpsertTableOption
            | CatalogOperation::UpdateTableMeta => false,
            _ => true,
        };
        if takes && tenant.unicode_len() == 0 {
            Err(ErrorCode::create(ErrorKind::TenantIsEmpty, operation.tenant_message()))
        } else {
            Ok(())
        }
    }

    /// What to do once the upper layer has answered the read `operation`
    /// with `answer`.
    pub fn after_upper_layer<T>(operation: CatalogOperation, answer: Result<T, ErrorCode>) -> (r: Lookup<T>)
        ensures
            match answer {
                Ok(found) => r == Lookup::Found(found),
                Err(e) => if operation.falls_back(e.kind) {
                    r is TryMutable
                } else {
                    r == Lookup::<T>::Failed(e)
                },
            },
    {
        match answer {
            Ok(found) => Lookup::Found(found),
            Err(e) => {
                let falls_back = match operation {
                    CatalogOperation::GetDatabase
                    | CatalogOperation::GetTable
                    | CatalogOperation::ListTables
                    | CatalogOperation::ListTablesHistory => e.kind == ErrorKind::UnknownDatabase,
                    CatalogOperation::GetTableByInfo => e.kind == ErrorKind::UnknownTable,
                    CatalogOperation::GetTableMetaById => true,
                    _ => false,
                };
                if falls_back {
                    Lookup::TryMutable
                } else {
                    Lookup::Failed(e)
                }
            },
        }
    }

    /// The layer that takes the write `operation`, given whether the upper
    /// layer holds the database `db_name` that is written to and, for a
    /// renaming, the database of the new name.
    pub fn layer_for_write(operation: CatalogOperation, db_name: &str, in_upper: bool, target_in_upper: bool) -> (r:
        Result<Layer, ErrorCode>)
        ensures
            match operation.write_layer(in_upper, target_in_upper) {
                Ok(layer) => r == Ok::<Layer, ErrorCode>(layer),
                Err(kind) => r is Err && r->Err_0.kind == kind,
            },
    {
        match operation {
            CatalogOperation::CreateDatabase => {
                if in_upper {
                    let mut message = String::from_str(db_name);
                    message.append(" database exists");
                    Err(ErrorCode { kind: ErrorKind::DatabaseAlreadyExists, message })
                } else {
                    // Databases are created in the lower layer only.
                    Ok(Layer::Mutable)
                }
            },
            CatalogOperation::DropDatabase
            | CatalogOperation::CreateTable
            | CatalogOperation::DropTable
            | CatalogOperation::UndropTable
            | CatalogOperation::UndropDatabase => {
                if in_upper {
                    Ok(Layer::Immutable)
                } else {
                    Ok(Layer::Mutable)
                }
            },
            CatalogOperation::RenameDatabase => {
                if in_upper || target_in_upper {
                    Ok(Layer::Immutable)
                } else {
                    Ok(Layer::Mutable)
                }
            },
            CatalogOperation::RenameTable => {
                if in_upper || target_in_upper {
                    Err(
                        ErrorCode::create(ErrorKind::UnImplement, "Cannot rename table from(to) system databases"),
                    )
                } else {
                    Ok(Layer::Mutable)
                }
            },
            _ => Ok(Layer::Mutable),
        }
    }
}

} // verus!
