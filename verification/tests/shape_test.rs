use incr::{
    check_db_struct, check_query_signature, input_field_positions, input_kind, DbParam,
    DbShapeError, InputShape, KeyShape, QuerySigError,
};

fn db_ref() -> DbParam {
    DbParam::Typed { reference: true, mutable: true }
}

#[test]
fn input_kind_by_type_arguments() {
    assert_eq!(input_kind(Some(2)), InputShape::Table);
    assert_eq!(input_kind(Some(1)), InputShape::Scalar { whole: false });
    assert_eq!(input_kind(Some(0)), InputShape::Scalar { whole: true });
    assert_eq!(input_kind(Some(3)), InputShape::Scalar { whole: true });
    assert_eq!(input_kind(None), InputShape::Scalar { whole: true });
}

#[test]
fn db_struct_needs_named_fields() {
    assert_eq!(check_db_struct(true, true), Ok(()));
    assert_eq!(check_db_struct(true, false), Err(DbShapeError::NotNamedStruct));
    assert_eq!(check_db_struct(false, false), Err(DbShapeError::NotNamedStruct));
    assert_eq!(
        DbShapeError::NotNamedStruct.message(),
        "#[derive(Db)] is only supported on structs with named fields"
    );
}

#[test]
fn input_positions_keep_order() {
    assert_eq!(input_field_positions(&vec![true, false, true, true]), vec![0, 2, 3]);
    assert_eq!(input_field_positions(&vec![false, false]), Vec::<usize>::new());
    assert_eq!(input_field_positions(&Vec::new()), Vec::<usize>::new());
}

#[test]
fn query_signature_key_shapes() {
    assert_eq!(check_query_signature(false, false, db_ref(), false, 0), Ok(KeyShape::Unit));
    assert_eq!(check_query_signature(false, false, db_ref(), false, 1), Ok(KeyShape::Single));
    assert_eq!(check_query_signature(false, false, db_ref(), false, 2), Ok(KeyShape::Tuple));
    assert_eq!(check_query_signature(false, false, db_ref(), false, 5), Ok(KeyShape::Tuple));
}

#[test]
fn query_signature_errors_in_order() {
    assert_eq!(check_query_signature(true, true, DbParam::Missing, true, 0), Err(QuerySigError::Async));
    assert_eq!(check_query_signature(false, true, DbParam::Missing, true, 0), Err(QuerySigError::Unsafe));
    assert_eq!(check_query_signature(false, false, DbParam::Missing, false, 0), Err(QuerySigError::MissingDb));
    assert_eq!(
        check_query_signature(false, false, DbParam::Receiver { mutable: true }, false, 0),
        Err(QuerySigError::MutableReceiver)
    );
    assert_eq!(
        check_query_signature(false, false, DbParam::Receiver { mutable: false }, false, 0),
        Err(QuerySigError::Method)
    );
    assert_eq!(
        check_query_signature(false, false, DbParam::Typed { reference: false, mutable: false }, false, 1),
        Err(QuerySigError::DbNotReference)
    );
    assert_eq!(
        check_query_signature(false, false, DbParam::Typed { reference: true, mutable: false }, false, 1),
        Err(QuerySigError::DbNotMutable)
    );
    assert_eq!(check_query_signature(false, false, db_ref(), true, 2), Err(QuerySigError::ExtraReceiver));
}

#[test]
fn query_error_messages() {
    assert_eq!(
        QuerySigError::Async.message(),
        "#[query] does not support async functions in incr v0.1"
    );
    assert_eq!(QuerySigError::Unsafe.message(), "#[query] functions cannot be unsafe");
    assert_eq!(QuerySigError::ExtraReceiver.message(), "unexpected receiver argument");
    assert_eq!(
        QuerySigError::MutableReceiver.message(),
        "#[query] receiver must be immutable `&self`"
    );
}
