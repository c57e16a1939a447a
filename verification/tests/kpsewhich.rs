use dvious::errors::DviousError;
use dvious::fonts::kpsewhich::{
    kpsewhich_arguments, kpsewhich_result, pk_arguments, tfm_arguments,
};

#[test]
fn arguments_name_the_format_and_the_font() {
    assert_eq!(
        kpsewhich_arguments(String::from("cmr10"), "tfm"),
        vec![String::from("--format=tfm"), String::from("cmr10")]
    );
    assert_eq!(
        kpsewhich_arguments(String::from("cmr10"), "pk"),
        vec![String::from("--format=pk"), String::from("cmr10")]
    );
}

#[test]
fn each_kind_of_file_is_asked_for_by_its_format() {
    assert_eq!(
        pk_arguments(String::from("cmr10")),
        vec![String::from("--format=pk"), String::from("cmr10")]
    );
    assert_eq!(
        tfm_arguments(String::from("cmr10")),
        vec![String::from("--format=tfm"), String::from("cmr10")]
    );
    assert_eq!(
        tfm_arguments(String::from("nonexisting")),
        kpsewhich_arguments(String::from("nonexisting"), "tfm")
    );
}

#[test]
fn path_is_the_trimmed_output_of_a_successful_run() {
    assert_eq!(
        kpsewhich_result(true, "/usr/share/texmf/fonts/tfm/cmr10.tfm\n").unwrap(),
        "/usr/share/texmf/fonts/tfm/cmr10.tfm"
    );
    assert_eq!(
        kpsewhich_result(true, " \t /fonts/with space.tfm \r\n").unwrap(),
        "/fonts/with space.tfm"
    );
    assert_eq!(kpsewhich_result(true, " \n ").unwrap(), "");
}

#[test]
fn nonzero_status_is_a_resolver_error() {
    match kpsewhich_result(false, "/usr/share/texmf/fonts/tfm/cmr10.tfm\n") {
        Err(DviousError::KpsewhichError(message)) => {
            assert_eq!(message, "Kpsewhich finished with nonzero status code!")
        }
        other => panic!("expected a resolver error, got {:?}", other),
    }
}
