use package_registry::response::{authenticate, packages_list_400, redirect_422_to_400, reply, HttpStatus};

#[test]
fn status_codes() {
    assert_eq!(HttpStatus::Success.code(), 200);
    assert_eq!(HttpStatus::Created.code(), 201);
    assert_eq!(HttpStatus::BadRequest.code(), 400);
    assert_eq!(HttpStatus::NotFound.code(), 404);
    assert_eq!(HttpStatus::Conflict.code(), 409);
    assert_eq!(HttpStatus::FailedDependency.code(), 424);
    assert_eq!(HttpStatus::NotImplemented.code(), 501);
}

#[test]
fn fixed_replies() {
    let r = redirect_422_to_400();
    assert_eq!(r.status, HttpStatus::BadRequest);
    assert_eq!(r.message, "Error processing data");
    let r = packages_list_400();
    assert_eq!(r.status.code(), 400);
    assert_eq!(
        r.message,
        "There is missing field(s) in the PackageQuery/AuthenticationToken/offset or it is formed improperly."
    );
    let r = authenticate();
    assert_eq!(r.status.code(), 501);
    assert_eq!(r.message, "Not implemented");
    let r = reply(HttpStatus::Conflict, "x");
    assert_eq!(r.message, "x");
}
