use file_browser::mutation::{
    create_dir_response, create_dir_result, error_response, io_error,
};
use file_browser::probe::{probe_args, probe_output, probe_unavailable, should_probe, ProbeRun};
use file_browser::{
    create_dir, delete_response, plan_delete, DeleteAction, IoErrorKind, IoFailure, JsonRequest,
    JsonResponse, OpError, PathKind, ServerRoot,
};

fn root() -> ServerRoot {
    ServerRoot::new("/srv/data").unwrap()
}

fn confined(rel: &str) -> file_browser::ConfinedPath {
    let p = file_browser::resolve(&root(), rel).unwrap();
    let text = p.as_str().to_string();
    file_browser::confirm_on_disk(p, &text, &text).unwrap()
}

fn failure(kind: IoErrorKind, message: &str) -> IoFailure {
    IoFailure { kind, message: message.to_string() }
}

fn reply(r: &JsonResponse) -> (bool, Option<String>) {
    match r {
        JsonResponse::Succeeded { msg } => (true, msg.clone()),
        JsonResponse::Failed { msg } => (false, msg.clone()),
    }
}

fn request(name: &str) -> JsonRequest {
    JsonRequest::CreateDirectory { dir_name: name.to_string() }
}

#[test]
fn create_dir_target_is_below_parent() {
    let c = create_dir(&confined("/docs"), &request("new")).unwrap();
    assert_eq!(c.as_str(), "/srv/data/docs/new");
    assert_eq!(c.relative_str(), "/docs/new");
    assert_eq!(create_dir(&confined(""), &request("top")).unwrap().as_str(), "/srv/data/top");
}

#[test]
fn create_dir_refuses_bad_names_and_parents() {
    assert_eq!(create_dir(&confined("/docs"), &request("a/b")).unwrap_err(), OpError::InvalidName);
    assert_eq!(create_dir(&confined("/docs"), &request("..")).unwrap_err(), OpError::InvalidName);
    assert_eq!(file_browser::resolve(&root(), "/..").unwrap_err(), OpError::PathEscapesRoot);
}

#[test]
fn create_dir_outcomes() {
    assert_eq!(create_dir_result(&None), Ok(()));
    let exists = Some(failure(IoErrorKind::AlreadyExists, "File exists (os error 17)"));
    assert_eq!(create_dir_result(&exists), Err(OpError::AlreadyExists));
    let denied = Some(failure(IoErrorKind::Other, "Permission denied (os error 13)"));
    assert_eq!(create_dir_result(&denied), Err(OpError::IoFailure));
    assert_eq!(io_error(&failure(IoErrorKind::NotFound, "x")), OpError::IoFailure);
}

#[test]
fn create_dir_replies() {
    assert_eq!(
        reply(&create_dir_response("/srv/data/docs/new", &None)),
        (true, Some("create dir: /srv/data/docs/new".to_string()))
    );
    let exists = Some(failure(IoErrorKind::AlreadyExists, "File exists (os error 17)"));
    assert_eq!(
        reply(&create_dir_response("/srv/data/docs/new", &exists)),
        (false, Some("File exists (os error 17)".to_string()))
    );
}

#[test]
fn delete_plans() {
    assert!(matches!(plan_delete(&confined("f"), PathKind::File), DeleteAction::RemoveFile(p) if p == "/srv/data/f"));
    assert!(matches!(plan_delete(&confined("d"), PathKind::Directory), DeleteAction::RemoveDirAll(p) if p == "/srv/data/d"));
    assert!(matches!(plan_delete(&confined("x"), PathKind::Absent), DeleteAction::Nothing));
    assert!(matches!(plan_delete(&confined("l"), PathKind::Symlink), DeleteAction::Nothing));
}

#[test]
fn delete_replies() {
    let f = plan_delete(&confined("/f"), PathKind::File);
    assert_eq!(reply(&delete_response("/f", &f, &None)), (true, None));
    let err = Some(failure(IoErrorKind::Other, "Permission denied"));
    assert_eq!(
        reply(&delete_response("/f", &f, &err)),
        (false, Some("failed to remove file: /f, error: Permission denied".to_string()))
    );
    let d = plan_delete(&confined("d"), PathKind::Directory);
    assert_eq!(
        reply(&delete_response("d", &d, &err)),
        (false, Some("failed to remove dir: d, error: Permission denied".to_string()))
    );
}

#[test]
fn delete_of_nothing_is_idempotent() {
    let target = confined("/gone");
    for _ in 0..2 {
        let a = plan_delete(&target, PathKind::Absent);
        assert!(matches!(a, DeleteAction::Nothing));
        assert_eq!(reply(&delete_response("/gone", &a, &None)), (true, None));
    }
}

#[test]
fn error_replies_name_the_error() {
    assert_eq!(
        reply(&error_response(OpError::PathEscapesRoot)),
        (false, Some("invalid path: outside the served directory".to_string()))
    );
    assert_eq!(OpError::AlreadyExists.message(), "already exists");
    assert_eq!(OpError::TargetMissing.message(), "target directory does not exist");
    assert_eq!(OpError::MissingFileName.message(), "missing file name");
    assert_eq!(OpError::InvalidName.message(), "invalid name: must be one plain path segment");
    assert_eq!(OpError::IoFailure.message(), "input/output failure");
}

#[test]
fn probe_runs_on_files_only() {
    assert!(should_probe(PathKind::File));
    assert!(!should_probe(PathKind::Directory));
    assert!(!should_probe(PathKind::Absent));
}

#[test]
fn probe_outputs() {
    let ok = Some(ProbeRun { exit_ok: true, stdout: Some("{\"format\":{}}".to_string()) });
    assert_eq!(probe_output(PathKind::File, &ok), Some("{\"format\":{}}".to_string()));
    let not_utf8 = Some(ProbeRun { exit_ok: true, stdout: None });
    assert_eq!(probe_output(PathKind::File, &not_utf8), Some("{}".to_string()));
    let failed = Some(ProbeRun { exit_ok: false, stdout: Some("x".to_string()) });
    assert_eq!(probe_output(PathKind::File, &failed), None);
    assert_eq!(probe_output(PathKind::File, &None), None);
    assert_eq!(probe_output(PathKind::Directory, &ok), None);
    assert_eq!(reply(&probe_unavailable()), (false, Some("ffprobe not found".to_string())));
}

#[test]
fn probe_arguments_end_with_the_path() {
    assert_eq!(
        probe_args(&confined("/media/clip.mp4")),
        vec!["-v", "quiet", "-print_format", "json", "-show_format", "-show_streams", "/srv/data/media/clip.mp4"]
    );
}
