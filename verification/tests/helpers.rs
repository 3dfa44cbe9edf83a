use dogfood::intersect::{markers, occurs, slices_equal};
use dogfood::{
    arrays_intersect, arrays_intersect_helper, id_helper, url_domain, url_domain_helper,
    ArrayParam, HelperError, NoDomain,
};

#[test]
fn equal_sequences_give_no_marker() {
    assert_eq!(arrays_intersect(&[1, 2, 3], &[1, 2, 3]), 0);
    assert_eq!(arrays_intersect::<u8>(&[], &[]), 0);
    assert_eq!(arrays_intersect(&["a"], &["a"]), 0);
}

#[test]
fn disjoint_sequences_give_no_marker() {
    assert_eq!(arrays_intersect(&[1, 2], &[3, 4]), 0);
    assert_eq!(arrays_intersect(&[1, 2], &[]), 0);
    assert_eq!(arrays_intersect(&[], &[1, 2]), 0);
}

#[test]
fn each_shared_place_gives_a_marker() {
    assert_eq!(arrays_intersect(&[1, 2, 2], &[2, 5]), 2);
    assert_eq!(arrays_intersect(&[1, 2, 3], &[3, 2, 1]), 3);
    assert_eq!(arrays_intersect(&[1, 2, 3], &[1, 2]), 2);
    assert_eq!(arrays_intersect(&[1, 2], &[1, 2, 3]), 2);
    assert_eq!(arrays_intersect(&[7, 7, 7], &[7]), 3);
    assert_eq!(arrays_intersect(&["x", "y"], &["y", "z"]), 1);
    assert_eq!(
        arrays_intersect(&["a".to_string(), "b".to_string()], &["b".to_string()]),
        1
    );
}

#[test]
fn slices_equal_and_occurs() {
    assert!(slices_equal(&[1, 2], &[1, 2]));
    assert!(!slices_equal(&[1, 2], &[2, 1]));
    assert!(!slices_equal(&[1, 2], &[1, 2, 3]));
    assert!(slices_equal::<i32>(&[], &[]));
    assert!(occurs(&2, &[1, 2, 3]));
    assert!(!occurs(&4, &[1, 2, 3]));
    assert!(!occurs(&4, &[]));
}

#[test]
fn markers_are_written_without_separator() {
    assert_eq!(markers(0), "");
    assert_eq!(markers(1), "true");
    assert_eq!(markers(3), "truetruetrue");
}

#[test]
fn intersect_helper_writes_markers() {
    let a = [1, 2, 2];
    let b = [2, 5];
    assert_eq!(
        arrays_intersect_helper(ArrayParam::Array(&a), ArrayParam::Array(&b)),
        Ok("truetrue".to_string())
    );
    assert_eq!(
        arrays_intersect_helper(ArrayParam::Array(&a), ArrayParam::Array(&a)),
        Ok(String::new())
    );
    assert_eq!(
        arrays_intersect_helper(ArrayParam::Array(&[1, 2]), ArrayParam::Array(&[3, 4])),
        Ok(String::new())
    );
}

#[test]
fn intersect_helper_looks_at_the_first_argument_first() {
    let a = [1];
    assert_eq!(
        arrays_intersect_helper::<i32>(ArrayParam::Missing, ArrayParam::Missing),
        Err(HelperError::FirstArrayMissing)
    );
    assert_eq!(
        arrays_intersect_helper::<i32>(ArrayParam::Missing, ArrayParam::NotArray),
        Err(HelperError::FirstArrayMissing)
    );
    assert_eq!(
        arrays_intersect_helper::<i32>(ArrayParam::NotArray, ArrayParam::Missing),
        Err(HelperError::FirstArrayInvalid)
    );
    assert_eq!(
        arrays_intersect_helper(ArrayParam::NotArray, ArrayParam::Array(&a)),
        Err(HelperError::FirstArrayInvalid)
    );
    assert_eq!(
        arrays_intersect_helper(ArrayParam::Array(&a), ArrayParam::Missing),
        Err(HelperError::SecondArrayMissing)
    );
    assert_eq!(
        arrays_intersect_helper(ArrayParam::Array(&a), ArrayParam::NotArray),
        Err(HelperError::SecondArrayInvalid)
    );
}

#[test]
fn id_helper_needs_its_argument() {
    assert_eq!(id_helper(Some("Hello World")), Ok("hello-world".to_string()));
    assert_eq!(id_helper(Some("")), Ok(String::new()));
    assert_eq!(id_helper(None), Err(HelperError::IdParamMissing));
}

#[test]
fn domain_of_a_link() {
    assert_eq!(url_domain("https://www.example.com/path"), Ok("example.com".to_string()));
    assert_eq!(url_domain("example.co.uk"), Ok("example.co.uk".to_string()));
    assert_eq!(url_domain("http://example.org"), Ok("example.org".to_string()));
    assert_eq!(url_domain("www.example.org"), Ok("example.org".to_string()));
    assert_eq!(url_domain("https://sub.domain.example.com:8080/a?b=c"), Ok("sub.domain.example.com".to_string()));
}

#[test]
fn domain_is_taken_from_the_first_link() {
    assert_eq!(
        url_domain("see http://first.example/x and https://second.example/y"),
        Ok("first.example".to_string())
    );
    assert_eq!(url_domain("Source: (https://my-site.io)."), Ok("my-site.io".to_string()));
    assert_eq!(url_domain("a.b"), Ok("a.b".to_string()));
    assert_eq!(url_domain("www.com"), Ok("www.com".to_string()));
    assert_eq!(url_domain("ftp://files.example.net"), Ok("files.example.net".to_string()));
    assert_eq!(url_domain("https://münchen.de/rathaus"), Ok("münchen.de".to_string()));
}

#[test]
fn text_without_link_is_handed_back() {
    assert_eq!(url_domain("not a url"), Err(NoDomain { text: "not a url".to_string() }));
    assert_eq!(url_domain(""), Err(NoDomain { text: String::new() }));
    assert_eq!(url_domain("https://localhost/"), Err(NoDomain { text: "https://localhost/".to_string() }));
    assert_eq!(url_domain("a. b"), Err(NoDomain { text: "a. b".to_string() }));
    assert_eq!(url_domain("..."), Err(NoDomain { text: "...".to_string() }));
}

#[test]
fn url_domain_helper_results() {
    assert_eq!(
        url_domain_helper(Some("https://www.example.com/path")),
        Ok("example.com".to_string())
    );
    assert_eq!(
        url_domain_helper(Some("not a url")),
        Err(HelperError::UrlInvalid("not a url".to_string()))
    );
    assert_eq!(url_domain_helper(None), Err(HelperError::UrlParamMissing));
}

#[test]
fn helper_fault_messages() {
    assert_eq!(HelperError::IdParamMissing.message(), "`id` helper: Param not given");
    assert_eq!(
        HelperError::FirstArrayMissing.message(),
        "`arrays-intersect` helper: First param not given"
    );
    assert_eq!(
        HelperError::FirstArrayInvalid.message(),
        "`arrays-intersect` helper: First param must be of type `array`"
    );
    assert_eq!(
        HelperError::SecondArrayMissing.message(),
        "`arrays-intersect` helper: Second param not given"
    );
    assert_eq!(
        HelperError::SecondArrayInvalid.message(),
        "`arrays-intersect` helper: Second param must be of type `array`"
    );
    assert_eq!(HelperError::UrlParamMissing.message(), "`url-domain` helper: Param not given");
    assert_eq!(
        HelperError::UrlInvalid("not a url".to_string()).message(),
        "`url-domain` helper: String is not valid URL: 'not a url'"
    );
}
