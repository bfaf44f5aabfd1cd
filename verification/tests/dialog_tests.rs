use platform_core::dialog::{
    build_message, kdialog_code_to_index, kdialog_kind_flag, message_box_flags,
    message_box_result_to_index, zenity_kind_flag, zenity_result_index, DialogKind, DialogOptions,
};

fn options(message: &str, detail: Option<&str>, buttons: Vec<&str>) -> DialogOptions {
    DialogOptions {
        kind: DialogKind::Info,
        title: "title".to_string(),
        message: message.to_string(),
        detail: detail.map(|d| d.to_string()),
        buttons: buttons.into_iter().map(|b| b.to_string()).collect(),
    }
}

#[test]
fn message_joins_detail_with_blank_line() {
    let o = options("disk full", Some("remove some files"), vec![]);
    assert_eq!(build_message(&o), "disk full\n\nremove some files");
}

#[test]
fn message_empty_uses_detail_alone() {
    let o = options("", Some("remove some files"), vec![]);
    assert_eq!(build_message(&o), "remove some files");
}

#[test]
fn message_without_detail_stands_alone() {
    let o = options("disk full", None, vec![]);
    assert_eq!(build_message(&o), "disk full");
}

#[test]
fn zenity_flags_by_kind() {
    assert_eq!(zenity_kind_flag(DialogKind::Error), "--error");
    assert_eq!(zenity_kind_flag(DialogKind::Warning), "--warning");
    assert_eq!(zenity_kind_flag(DialogKind::Info), "--info");
}

#[test]
fn kdialog_flags_by_kind() {
    assert_eq!(kdialog_kind_flag(DialogKind::Error), "--error");
    assert_eq!(kdialog_kind_flag(DialogKind::Warning), "--sorry");
    assert_eq!(kdialog_kind_flag(DialogKind::Info), "--msgbox");
}

#[test]
fn kdialog_codes_name_the_first_three_buttons() {
    assert_eq!(kdialog_code_to_index(Some(0)), 0);
    assert_eq!(kdialog_code_to_index(Some(1)), 1);
    assert_eq!(kdialog_code_to_index(Some(2)), 2);
    assert_eq!(kdialog_code_to_index(Some(7)), 0);
    assert_eq!(kdialog_code_to_index(None), 0);
}

#[test]
fn zenity_success_means_first_button() {
    let buttons: Vec<String> = vec!["ok".to_string(), "cancel".to_string()];
    assert_eq!(zenity_result_index(true, "", &buttons), 0);
}

#[test]
fn zenity_failure_with_two_buttons_means_second() {
    let buttons: Vec<String> = vec!["ok".to_string(), "cancel".to_string()];
    assert_eq!(zenity_result_index(false, "", &buttons), 1);
}

#[test]
fn zenity_extra_button_is_recognized_by_label() {
    let buttons: Vec<String> =
        vec!["ok".to_string(), "cancel".to_string(), "retry".to_string(), "skip".to_string()];
    assert_eq!(zenity_result_index(false, "retry", &buttons), 2);
    assert_eq!(zenity_result_index(false, "skip", &buttons), 3);
    assert_eq!(zenity_result_index(false, "other", &buttons), 1);
}

#[test]
fn message_box_flags_compose_kind_and_buttons() {
    assert_eq!(message_box_flags(DialogKind::Error, 1), 0x10);
    assert_eq!(message_box_flags(DialogKind::Warning, 2), 0x31);
    assert_eq!(message_box_flags(DialogKind::Info, 3), 0x43);
}

#[test]
fn message_box_answers_map_to_button_indexes() {
    assert_eq!(message_box_result_to_index(1, 3), 0);
    assert_eq!(message_box_result_to_index(2, 3), 2);
    assert_eq!(message_box_result_to_index(2, 1), 0);
    assert_eq!(message_box_result_to_index(6, 3), 0);
    assert_eq!(message_box_result_to_index(7, 3), 1);
    assert_eq!(message_box_result_to_index(99, 3), 0);
}
