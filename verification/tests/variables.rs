use task_manager::task::NtfyContext;
use task_manager::variables::substitute_variables;

fn context() -> NtfyContext {
    NtfyContext {
        topic: "alerts".to_string(),
        title: "Fire".to_string(),
        message: "in the {{ntfy_title}}".to_string(),
        tags: "red, ,  hot ".to_string(),
    }
}

#[test]
fn variables_are_replaced() {
    let c = context();
    assert_eq!(
        substitute_variables("{{ntfy_topic}}/{{ntfy_title}} {{public_ip}}", Some(&c), Some("1.2.3.4")),
        "alerts/Fire 1.2.3.4"
    );
    assert_eq!(substitute_variables("{{ntfy_message}}", Some(&c), None), "in the {{ntfy_title}}");
}

#[test]
fn tags_are_counted_from_one_and_blank_ones_stay() {
    let c = context();
    assert_eq!(
        substitute_variables("{{ntfy_tags1}}-{{ntfy_tags2}}-{{ntfy_tags3}}-{{ntfy_tags4}}", Some(&c), None),
        "red-{{ntfy_tags2}}-hot-{{ntfy_tags4}}"
    );
}

#[test]
fn unknown_values_leave_their_variables() {
    assert_eq!(substitute_variables("{{public_ip}} {{ntfy_topic}}", None, None), "{{public_ip}} {{ntfy_topic}}");
    assert_eq!(substitute_variables("plain", Some(&context()), Some("x")), "plain");
}

#[test]
fn values_found_later_see_the_values_found_before() {
    let mut c = context();
    c.topic = "{{ntfy_title}}".to_string();
    assert_eq!(substitute_variables("{{ntfy_topic}}", Some(&c), None), "Fire");
    assert_eq!(substitute_variables("{{public_ip}}", Some(&c), Some("{{ntfy_topic}}")), "Fire");
}
