use ledgerstat::advisor::{
    advisor_index_from_model, advisor_model_from_index, advisor_model_name, Modeltype,
};
use ledgerstat::datatype::{AccountType, Currency};
use ledgerstat::tui::{LoginApp, LoginMode, LoginStep, Screen};

#[test]
fn currency_codes_are_uppercased() {
    assert_eq!(Currency::new("cad").0, "CAD");
    assert_eq!(Currency::new("Usd").0, "USD");
    assert_eq!(Currency::new("EUR").0, "EUR");
    // uppercasing an already-uppercased code changes nothing
    let once = Currency::new("chf").0;
    assert_eq!(Currency::new(&once).0, once);
}

#[test]
fn account_type_from_name_is_case_insensitive() {
    assert!(matches!(AccountType::from(String::from("CHECKING")), AccountType::Checking));
    assert!(matches!(AccountType::from(String::from("credit")), AccountType::Credit));
    assert!(matches!(AccountType::from(String::from("Cash")), AccountType::Cash));
    match AccountType::from(String::from("Brokerage")) {
        AccountType::Other(s) => assert_eq!(s, "Brokerage"),
        _ => panic!("expected the original text to be kept"),
    }
}

#[test]
fn account_type_wire_names() {
    assert_eq!(AccountType::Checking.to_cloud(), "checking");
    assert_eq!(AccountType::Credit.to_cloud(), "credit");
    assert_eq!(AccountType::Cash.to_cloud(), "cash");
    assert_eq!(AccountType::Other(String::from("x")).to_cloud(), "other");
}

#[test]
fn screen_cycle_is_a_loop() {
    let mut s = Screen::Dashboard;
    for _ in 0..9 {
        s = s.next_screen();
    }
    assert_eq!(s, Screen::Dashboard);
    assert_eq!(Screen::Dashboard.prev_screen(), Screen::Help);
    assert_eq!(Screen::Help.next_screen(), Screen::Dashboard);
    assert_eq!(Screen::Trends.prev_screen().next_screen(), Screen::Trends);
}

#[test]
fn login_app_starts_clean() {
    let app = LoginApp::new(String::from("http://localhost:3000"));
    assert_eq!(app.base_url, "http://localhost:3000");
    assert!(app.email.is_empty());
    assert!(app.password.is_empty());
    assert_eq!(app.mode, LoginMode::Email);
    assert_eq!(app.step, LoginStep::Choose);
    assert!(app.error_message.is_none());
}

#[test]
fn model_menu_roundtrip() {
    for m in [
        Modeltype::Qwen25_0_5B,
        Modeltype::Qwen25_1_5B,
        Modeltype::Qwen25_3B,
        Modeltype::Qwen25_7B,
    ] {
        assert_eq!(advisor_model_from_index(advisor_index_from_model(m)), m);
    }
    assert_eq!(advisor_model_from_index(42), Modeltype::Qwen25_1_5B);
    assert_eq!(advisor_model_name(Modeltype::Qwen25_3B), "Qwen2.5-3B-Instruct");
}

#[test]
fn model_addresses() {
    assert_eq!(Modeltype::Qwen25_1_5B.tok_address(), "Qwen/Qwen2.5-1.5B-Instruct");
    let (repo, file) = Modeltype::Qwen25_7B.gguf_address();
    assert_eq!(repo, "Qwen/Qwen2.5-7B-Instruct-GGUF");
    assert_eq!(file, "qwen2.5-7b-instruct-q3_k_m.gguf");
    assert_eq!(Modeltype::Qwen25_0_5B.eos(), "<|im_end|>");
}

#[test]
fn chat_template_wraps_the_message() {
    let t = Modeltype::Qwen25_1_5B.apply_chat_template("How am I doing?");
    assert_eq!(
        t,
        "<|im_start|>system\nYou are a personal finance assistant.<|im_end|>\n<|im_start|>user\nHow am I doing?<|im_end|>\n<|im_start|>assistant\n"
    );
}

#[test]
fn tool_templates_compose() {
    let m = Modeltype::Qwen25_0_5B;
    let t = m.apply_into_tool_chat_template("q", "TOOLS");
    assert!(t.starts_with("<|im_start|>system\nYou are a personal finance assistant."));
    assert!(t.contains("<tools>\nTOOLS\n</tools>"));
    assert!(t.ends_with("<|im_start|>user\nq<|im_end|>\n<|im_start|>assistant\n"));
    let t2 = m.apply_tool_out_chat_template("PRE", "RESULT");
    assert_eq!(
        t2,
        "PRE<|im_end|>\n<|im_start|>user\n<tool_response>\nRESULT\n</tool_response><|im_end|>\n<|im_start|>assistant\n"
    );
}
