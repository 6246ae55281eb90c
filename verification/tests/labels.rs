use doc_controller::error::{error_fmt, fmt_dbg_error, ApiFailure, Error, FinalizerError};

#[test]
fn label_of_rejected_document_names_every_cause() {
    let err = Error::FinalizerError(Box::new(FinalizerError::ApplyFailed(Error::IllegalDocument)));
    assert_eq!(err.metric_label(), "finalizererror(applyfailed(illegaldocument))");
    assert_eq!(
        error_fmt(&err.renderings()),
        "FinalizerError_ApplyFailed_IllegalDocument"
    );
}

#[test]
fn debug_rendering_is_cut_at_the_first_parenthesis() {
    assert_eq!(fmt_dbg_error("Api(ErrorResponse { code: 404 })"), Some("Api".to_string()));
    assert_eq!(fmt_dbg_error("IllegalDocument"), Some("IllegalDocument".to_string()));
    assert_eq!(fmt_dbg_error("connection refused"), None);
    assert_eq!(fmt_dbg_error("hyper::Error"), None);
}

#[test]
fn labels_name_variants_only() {
    let kube = Error::KubeError(ApiFailure { message: "Api(ErrorResponse { code: 500 })".into() });
    assert_eq!(kube.metric_label(), "kubeerror");
    assert_eq!(kube.rendering(), "KubeError");
    assert_eq!(error_fmt(&kube.renderings()), "KubeError");
    let ser = Error::SerializationError("expected value at line 1 column 1".into());
    assert_eq!(ser.metric_label(), "serializationerror");
    assert_eq!(ser.message(), "SerializationError: expected value at line 1 column 1");
    assert_eq!(Error::IllegalDocument.metric_label(), "illegaldocument");
    assert_eq!(Error::IllegalDocument.message(), "IllegalDocument");
}

#[test]
fn renderings_follow_the_chain_of_causes() {
    let err = Error::FinalizerError(Box::new(FinalizerError::CleanupFailed(
        Error::IllegalDocument,
    )));
    assert_eq!(
        err.renderings(),
        vec![
            "FinalizerError(CleanupFailed(IllegalDocument))".to_string(),
            "CleanupFailed(IllegalDocument)".to_string(),
            "IllegalDocument".to_string(),
        ]
    );
    assert_eq!(err.metric_label(), err.rendering().to_lowercase());
    assert_eq!(
        err.message(),
        "Finalizer Error: failed to clean up object: IllegalDocument"
    );
}

#[test]
fn error_fmt_skips_what_is_no_name() {
    let chain = vec![
        "KubeError(Api(ErrorResponse { status: \"Failure\" }))".to_string(),
        "Api(ErrorResponse { status: \"Failure\" })".to_string(),
        "something went wrong".to_string(),
        "std::io::Error".to_string(),
        "Closed".to_string(),
    ];
    assert_eq!(error_fmt(&chain), "KubeError_Api_Closed");
    assert_eq!(error_fmt(&Vec::new()), "");
    assert_eq!(error_fmt(&vec!["a b".to_string()]), "");
    assert_eq!(error_fmt(&vec!["(x".to_string(), "y".to_string()]), "_y");
}
