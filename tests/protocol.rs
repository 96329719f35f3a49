use ttsst::protocol::{
    console_line, reload_triggered, Answer, AnswerError, AnswerKind, AnswerPrint, AnswerReload,
    AnswerReturn, Delivery, ExternalEditorApi, LineStyle, MessageCustomMessage, MessageExectute,
    MessageGetScripts,
};
use ttsst::script_states::ScriptStates;

fn error_answer(text: &str) -> Answer {
    Answer::Error(AnswerError {
        error: text.to_string(),
        guid: "-1".to_string(),
        error_message_prefix: "Error in Global Script: ".to_string(),
    })
}

#[test]
fn test_execute() {
    let mut api = ExternalEditorApi::new();
    let message = api.execute(String::from("return JSON.encode('5)"));
    assert_eq!(message.message_id, 3);
    assert_eq!(message.return_id, 5);
    assert_eq!(message.guid, "-1");
    assert_eq!(message.script, "return JSON.encode('5)");
    let answer = Answer::Return(AnswerReturn { return_id: 5, return_value: Some("\"5\"".to_string()) });
    assert_eq!(answer.kind().map(|k| k.id()), Some(5));
    match api.receive(answer) {
        Delivery::Reply(Answer::Return(r)) => {
            assert_eq!(r.return_id, 5);
            assert_eq!(r.return_value, Some("\"5\"".to_string()));
        }
        _ => panic!("expected the reply"),
    }
    assert_eq!(api.pending, None);
}

#[test]
fn test_custom_message() {
    let api = ExternalEditorApi::new();
    let message = api.custom_message("{\"foo\":\"foo\",\"bar\":\"bar\"}".to_string());
    assert_eq!(message.message_id, 2);
    assert_eq!(message.custom_message, "{\"foo\":\"foo\",\"bar\":\"bar\"}");
    assert_eq!(MessageCustomMessage::new("{}".to_string()).message_id, 2);
}

#[test]
fn test_any() {
    let mut api = ExternalEditorApi::new();
    let answers = vec![
        Answer::Print(AnswerPrint { message: "Hit player! White".to_string() }),
        error_answer("boom"),
        Answer::Unrecognized(42),
    ];
    for answer in answers {
        assert!(matches!(api.receive(answer), Delivery::Notification(_)));
    }
}

#[test]
fn error_notification_fails_the_outstanding_execute() {
    let mut api = ExternalEditorApi::new();
    api.execute("return nil +".to_string());
    let print = Answer::Print(AnswerPrint { message: "noise".to_string() });
    assert!(matches!(api.receive(print), Delivery::Notification(_)));
    assert_eq!(api.pending, Some(AnswerKind::Return));
    match api.receive(error_answer("chunk_0:(1,11): unexpected symbol")) {
        Delivery::Failed(e) => assert_eq!(e.error, "chunk_0:(1,11): unexpected symbol"),
        _ => panic!("expected the request to fail"),
    }
    assert_eq!(api.pending, None);
}

#[test]
fn reload_answer_completes_get_scripts() {
    let mut api = ExternalEditorApi::new();
    assert_eq!(api.get_scripts().message_id, 0);
    assert_eq!(MessageGetScripts::new().message_id, 0);
    let answer = Answer::Reload(AnswerReload { save_path: "save.json".to_string(), script_states: ScriptStates(vec![]) });
    match api.receive(answer) {
        Delivery::Reply(Answer::Reload(r)) => assert_eq!(r.save_path, "save.json"),
        _ => panic!("expected the reply"),
    }
    assert_eq!(MessageExectute::new("x".to_string()).message_id, 3);
}

#[test]
fn answer_kinds_by_discriminant() {
    assert_eq!(AnswerKind::from_id(0), Some(AnswerKind::NewObject));
    assert_eq!(AnswerKind::from_id(3), Some(AnswerKind::Error));
    assert_eq!(AnswerKind::from_id(7), Some(AnswerKind::ObjectCreated));
    assert_eq!(AnswerKind::from_id(8), None);
    assert_eq!(AnswerKind::Return.id(), 5);
    assert_eq!(Answer::Unrecognized(9).kind(), None);
}

#[test]
fn console_lines() {
    let print = Answer::Print(AnswerPrint { message: "hello".to_string() });
    let line = console_line(&print).unwrap();
    assert_eq!(line.style, LineStyle::Print);
    assert_eq!(line.text, "hello");
    let line = console_line(&error_answer("bad")).unwrap();
    assert_eq!(line.style, LineStyle::Error);
    assert_eq!(line.text, "Error in Global Script: bad");
    let reload = Answer::Reload(AnswerReload { save_path: "s".to_string(), script_states: ScriptStates(vec![]) });
    assert_eq!(console_line(&reload).unwrap().text, "Loading complete.");
    assert!(console_line(&Answer::Unrecognized(1)).is_none());
    assert!(reload_triggered(&reload, true));
    assert!(!reload_triggered(&reload, false));
    assert!(!reload_triggered(&print, true));
}
