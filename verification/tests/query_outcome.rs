use gpu_probe::gpu::list_system_gpus_from_output;

#[test]
fn empty_output_yields_an_empty_list_not_an_error() {
    let gpus = list_system_gpus_from_output(true, "", "").expect("empty output is a success");
    assert_eq!(gpus.len(), 0);
}

#[test]
fn blank_output_yields_an_empty_list_not_an_error() {
    let gpus =
        list_system_gpus_from_output(true, " \r\n\t ", "ignored").expect("blank output is a success");
    assert_eq!(gpus.len(), 0);
}

#[test]
fn failure_reports_the_trimmed_stderr() {
    let err = list_system_gpus_from_output(false, "whatever", "  boom \r\n")
        .expect_err("a failed command is an error");
    assert_eq!(err, "boom");
}

#[test]
fn successful_output_is_trimmed_then_parsed() {
    let gpus = list_system_gpus_from_output(
        true,
        " \n [{\"Name\":\" X \",\"AdapterRAM\":\"4194304\"}] \n ",
        "",
    )
    .expect("well-formed output parses");
    assert_eq!(gpus.len(), 1);
    assert_eq!(gpus[0].name, "X");
    assert_eq!(gpus[0].vram_mb, Some(4));
}

#[test]
fn successful_malformed_output_is_an_error() {
    let r = list_system_gpus_from_output(true, "][", "");
    assert!(r.is_err());
}
