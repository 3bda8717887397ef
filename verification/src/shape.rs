//! The rules behind `#[derive(Db)]` and `#[query]`: which structs and query
//! signatures are accepted, with which error, and what shape the generated
//! accessors and keys take. They work on plain descriptions of the syntax.
//!
//! Two rules follow from how this engine keeps its state. The memo table,
//! its counters and the stack of running queries are plain fields of the
//! database, updated by each query without interior mutability, so a query
//! takes its database as `&mut Db`, and `&Db` is refused. What `&Db` used to
//! guarantee, that a computation does not write inputs, is enforced at run
//! time instead: `MemoTable::begin_write` refuses a write while a query is
//! being computed. And a derived database is `Db<S, V>`, which carries the
//! memo table beside the inputs struct `S`, so `S` needs no `memo` field and
//! any struct with named fields is accepted.
use vstd::prelude::*;

verus! {

/// How an input field is stored, read from its type's arguments.
#[derive(Clone, Copy, PartialEq, Eq, Debug, Structural)]
pub enum InputShape {
    /// Two type arguments: a table from the first to the second.
    Table,
    /// One value; `whole` when the value type is the field's whole type
    /// rather than its one type argument.
    Scalar { whole: bool },
}

/// The shape of an input field whose type's last path segment has
/// `n_type_args` type arguments in angle brackets (`None` when it has none,
/// or the type is no path).
pub open spec fn spec_input_kind(n_type_args: Option<usize>) -> InputShape {
    match n_type_args {
        Some(n) => if n == 2 {
            InputShape::Table
        } else if n == 1 {
            InputShape::Scalar { whole: false }
        } else {
            InputShape::Scalar { whole: true }
        },
        None => InputShape::Scalar { whole: true },
    }
}

/// The shape of an input field.
pub fn input_kind(n_type_args: Option<usize>) -> (k: InputShape)
    ensures
        k == spec_input_kind(n_type_args),
        k == InputShape::Table <==> n_type_args == Some(2usize),
        k == (InputShape::Scalar { whole: false }) <==> n_type_args == Some(1usize),
        k == (InputShape::Scalar { whole: true }) <==> n_type_args != Some(2usize) && n_type_args
            != Some(1usize),
{
    match n_type_args {
        Some(n) => if n == 2 {
            InputShape::Table
        } else if n == 1 {
            InputShape::Scalar { whole: false }
        } else {
            InputShape::Scalar { whole: true }
        },
        None => InputShape::Scalar { whole: true },
    }
}

/// Why a struct cannot derive a database.
#[derive(Clone, Copy, PartialEq, Eq, Debug, Structural)]
pub enum DbShapeError {
    /// Not a struct, or a struct without named fields.
    NotNamedStruct,
}

impl DbShapeError {
    /// The error's text.
    pub fn message(&self) -> (m: &'static str)
        ensures
            m@ == "#[derive(Db)] is only supported on structs with named fields"@,
    {
        "#[derive(Db)] is only supported on structs with named fields"
    }
}

/// Whether a type can derive a database: a struct with named fields, whose
/// fields are the inputs (the memo table is `Db`'s own field).
pub fn check_db_struct(is_struct: bool, named_fields: bool) -> (r: Result<(), DbShapeError>)
    ensures
        r is Ok <==> is_struct && named_fields,
{
    if !is_struct || !named_fields {
        Err(DbShapeError::NotNamedStruct)
    } else {
        Ok(())
    }
}

/// The positions of the fields marked `#[input]`, in order.
pub fn input_field_positions(marked: &Vec<bool>) -> (r: Vec<usize>)
    ensures
        forall|k: int| 0 <= k < r@.len() ==> r@[k] < marked@.len() && marked@[r@[k] as int],
        forall|k: int, l: int| 0 <= k < l < r@.len() ==> r@[k] < r@[l],
        forall|j: int| 0 <= j < marked@.len() && marked@[j] ==> r@.contains(j as usize),
{
    let mut r: Vec<usize> = Vec::new();
    let mut i: usize = 0;
    while i < marked.len()
        invariant
            i <= marked@.len(),
            forall|k: int| 0 <= k < r@.len() ==> r@[k] < i && marked@[r@[k] as int],
            forall|k: int, l: int| 0 <= k < l < r@.len() ==> r@[k] < r@[l],
            forall|j: int| 0 <= j < i && marked@[j] ==> r@.contains(j as usize),
        decreases marked.len() - i,
    {
        if marked[i] {
            let ghost before = r@;
            r.push(i);
            proof {
                assert forall|j: int| 0 <= j < i + 1 && marked@[j] implies r@.contains(j as usize) by {
                    if j < i {
                        let k = choose|k: int| 0 <= k < before.len() && before[k] == j as usize;
                        assert(r@[k] == j as usize);
                    } else {
                        assert(r@[r@.len() - 1] == i);
                    }
                }
            }
        }
        i = i + 1;
    }
    r
}

/// The first parameter of a query function.
#[derive(Clone, Copy, PartialEq, Eq, Debug, Structural)]
pub enum DbParam {
    /// The function has no parameters.
    Missing,
    /// A `self` receiver.
    Receiver { mutable: bool },
    /// A typed parameter; `reference` when its type is a reference.
    Typed { reference: bool, mutable: bool },
}

/// How a query's key is built from its parameters after the database.
#[derive(Clone, Copy, PartialEq, Eq, Debug, Structural)]
pub enum KeyShape {
    /// No parameters: the key is `()`.
    Unit,
    /// One parameter: the key is that parameter.
    Single,
    /// Several parameters: the key is their tuple.
    Tuple,
}

/// Why a function cannot be a query.
#[derive(Clone, Copy, PartialEq, Eq, Debug, Structural)]
pub enum QuerySigError {
    Async,
    Unsafe,
    MissingDb,
    MutableReceiver,
    Method,
    DbNotMutable,
    DbNotReference,
    ExtraReceiver,
}

/// The text of each error.
pub open spec fn query_error_text(e: QuerySigError) -> Seq<char> {
    match e {
        QuerySigError::Async => "#[query] does not support async functions in incr v0.1"@,
        QuerySigError::Unsafe => "#[query] functions cannot be unsafe"@,
        QuerySigError::MissingDb => "#[query] function must have a database parameter (e.g. `db: &mut MyDb`)"@,
        QuerySigError::MutableReceiver => "#[query] receiver must be immutable `&self`"@,
        QuerySigError::Method => "#[query] on methods inside impl blocks is not yet supported; declare as `fn name(db: &mut MyDb, ...)`"@,
        QuerySigError::DbNotMutable => "#[query] database parameter must be a mutable reference `&mut Db`"@,
        QuerySigError::DbNotReference => "#[query] database parameter must be a reference (e.g. `db: &mut MyDb`)"@,
        QuerySigError::ExtraReceiver => "unexpected receiver argument"@,
    }
}

impl QuerySigError {
    /// The error's text.
    pub fn message(&self) -> (m: &'static str)
        ensures
            m@ == query_error_text(*self),
    {
        match self {
            QuerySigError::Async => "#[query] does not support async functions in incr v0.1",
            QuerySigError::Unsafe => "#[query] functions cannot be unsafe",
            QuerySigError::MissingDb => "#[query] function must have a database parameter (e.g. `db: &mut MyDb`)",
            QuerySigError::MutableReceiver => "#[query] receiver must be immutable `&self`",
            QuerySigError::Method => "#[query] on methods inside impl blocks is not yet supported; declare as `fn name(db: &mut MyDb, ...)`",
            QuerySigError::DbNotMutable => "#[query] database parameter must be a mutable reference `&mut Db`",
            QuerySigError::DbNotReference => "#[query] database parameter must be a reference (e.g. `db: &mut MyDb`)",
            QuerySigError::ExtraReceiver => "unexpected receiver argument",
        }
    }
}

/// The rule for query signatures, checked in this order: not async, not
/// unsafe, a first parameter that is a mutable reference to the database
/// (through which the query records what it reads and stores its memo),
/// no receiver among the others; the key is shaped by how many others
/// there are.
pub open spec fn spec_query_signature(
    is_async: bool,
    is_unsafe: bool,
    db: DbParam,
    extra_receiver: bool,
    n_keys: nat,
) -> Result<KeyShape, QuerySigError> {
    if is_async {
        Err(QuerySigError::Async)
    } else if is_unsafe {
        Err(QuerySigError::Unsafe)
    } else {
        match db {
            DbParam::Missing => Err(QuerySigError::MissingDb),
            DbParam::Receiver { mutable } => if mutable {
                Err(QuerySigError::MutableReceiver)
            } else {
                Err(QuerySigError::Method)
            },
            DbParam::Typed { reference, mutable } => if !reference {
                Err(QuerySigError::DbNotReference)
            } else if !mutable {
                Err(QuerySigError::DbNotMutable)
            } else if extra_receiver {
                Err(QuerySigError::ExtraReceiver)
            } else if n_keys == 0 {
                Ok(KeyShape::Unit)
            } else if n_keys == 1 {
                Ok(KeyShape::Single)
            } else {
                Ok(KeyShape::Tuple)
            },
        }
    }
}

/// Checks a query function's signature and gives the shape of its key.
pub fn check_query_signature(
    is_async: bool,
    is_unsafe: bool,
    db: DbParam,
    extra_receiver: bool,
    n_keys: usize,
) -> (r: Result<KeyShape, QuerySigError>)
    ensures
        r == spec_query_signature(is_async, is_unsafe, db, extra_receiver, n_keys as nat),
        is_async ==> r == Err::<KeyShape, QuerySigError>(QuerySigError::Async),
        !is_async && is_unsafe ==> r == Err::<KeyShape, QuerySigError>(QuerySigError::Unsafe),
        r is Ok <==> !is_async && !is_unsafe && db == (DbParam::Typed { reference: true, mutable: true })
            && !extra_receiver,
        !is_async && !is_unsafe && db == DbParam::Missing ==> r == Err::<KeyShape, QuerySigError>(
            QuerySigError::MissingDb,
        ),
        !is_async && !is_unsafe && db == (DbParam::Receiver { mutable: true }) ==> r == Err::<
            KeyShape,
            QuerySigError,
        >(QuerySigError::MutableReceiver),
        !is_async && !is_unsafe && db == (DbParam::Receiver { mutable: false }) ==> r == Err::<
            KeyShape,
            QuerySigError,
        >(QuerySigError::Method),
        !is_async && !is_unsafe && db is Typed && !db->reference ==> r == Err::<KeyShape, QuerySigError>(
            QuerySigError::DbNotReference,
        ),
        !is_async && !is_unsafe && db == (DbParam::Typed { reference: true, mutable: false }) ==> r
            == Err::<KeyShape, QuerySigError>(QuerySigError::DbNotMutable),
        !is_async && !is_unsafe && db == (DbParam::Typed { reference: true, mutable: true })
            && extra_receiver ==> r == Err::<KeyShape, QuerySigError>(QuerySigError::ExtraReceiver),
        r == Ok::<KeyShape, QuerySigError>(KeyShape::Unit) <==> r is Ok && n_keys == 0,
        r == Ok::<KeyShape, QuerySigError>(KeyShape::Single) <==> r is Ok && n_keys == 1,
        r == Ok::<KeyShape, QuerySigError>(KeyShape::Tuple) <==> r is Ok && n_keys >= 2,
{
    if is_async {
        return Err(QuerySigError::Async);
    }
    if is_unsafe {
        return Err(QuerySigError::Unsafe);
    }
    match db {
        DbParam::Missing => Err(QuerySigError::MissingDb),
        DbParam::Receiver { mutable } => if mutable {
            Err(QuerySigError::MutableReceiver)
        } else {
            Err(QuerySigError::Method)
        },
        DbParam::Typed { reference, mutable } => if !reference {
            Err(QuerySigError::DbNotReference)
        } else if !mutable {
            Err(QuerySigError::DbNotMutable)
        } else if extra_receiver {
            Err(QuerySigError::ExtraReceiver)
        } else if n_keys == 0 {
            Ok(KeyShape::Unit)
        } else if n_keys == 1 {
            Ok(KeyShape::Single)
        } else {
            Ok(KeyShape::Tuple)
        },
    }
}


/// An async function is never a query, whatever its parameters: it is
/// refused with the async error before anything else is looked at.
pub proof fn law_async_query_refused(db: DbParam, is_unsafe: bool, extra_receiver: bool, n_keys: nat)
    ensures
        spec_query_signature(true, is_unsafe, db, extra_receiver, n_keys) == Err::<KeyShape, QuerySigError>(
            QuerySigError::Async,
        ),
{
}

/// An unsafe function that is not async is never a query, whatever its
/// parameters: it is refused with the unsafe error.
pub proof fn law_unsafe_query_refused(db: DbParam, extra_receiver: bool, n_keys: nat)
    ensures
        spec_query_signature(false, true, db, extra_receiver, n_keys) == Err::<KeyShape, QuerySigError>(
            QuerySigError::Unsafe,
        ),
{
}

/// A signature is accepted exactly when it is neither async nor unsafe, its
/// first parameter is a mutable reference to the database and no other
/// parameter is a receiver; the key then has one component per further
/// parameter: none, one, or a tuple.
pub proof fn law_query_accepted_exactly(
    is_async: bool,
    is_unsafe: bool,
    db: DbParam,
    extra_receiver: bool,
    n_keys: nat,
)
    ensures
        spec_query_signature(is_async, is_unsafe, db, extra_receiver, n_keys) is Ok <==> !is_async
            && !is_unsafe && db == (DbParam::Typed { reference: true, mutable: true }) && !extra_receiver,
        spec_query_signature(is_async, is_unsafe, db, extra_receiver, n_keys) is Ok ==> spec_query_signature(
            is_async,
            is_unsafe,
            db,
            extra_receiver,
            n_keys,
        ) == Ok::<KeyShape, QuerySigError>(
            if n_keys == 0 {
                KeyShape::Unit
            } else if n_keys == 1 {
                KeyShape::Single
            } else {
                KeyShape::Tuple
            },
        ),
{
}

} // verus!
