use kovi::cq::{arr_to_cq, cq_to_arr, parse_cq_code, CQMessage};
use kovi::error::MessageError;
use kovi::json::{Json, JsonEntry};
use kovi::message::{json_eq, Message, Segment};

fn obj(entries: Vec<(&str, Json)>) -> Json {
    Json::Object(
        entries
            .into_iter()
            .map(|(k, v)| JsonEntry { key: k.to_string(), value: v })
            .collect(),
    )
}

fn s(t: &str) -> Json {
    Json::Str(t.to_string())
}

fn seg(type_: &str, data: Json) -> Segment {
    Segment::new(type_, data)
}

fn seg_json(type_: &str, data: Json) -> Json {
    obj(vec![("type", s(type_)), ("data", data)])
}

fn text_seg(t: &str) -> Segment {
    seg("text", obj(vec![("text", s(t))]))
}

#[test]
fn check_msg() {
    let msg: Message = Message::from_value(Json::Array(vec![
        seg_json("text", obj(vec![("text", s("Some msg"))])),
        seg_json("face", obj(vec![("id", s("0"))])),
    ]))
    .unwrap();
    let text_value = Segment::from_json(&seg_json("text", obj(vec![("text", s("Some msg"))]))).unwrap();
    let face_value = Segment::from_json(&seg_json("face", obj(vec![("id", s("0"))]))).unwrap();
    assert_eq!(msg.get("text")[0], text_value);
    assert_eq!(msg.get("face")[0], face_value);

    let msg1: Message = Message::from("Hi");
    let msg2: Message = Message::from_value(Json::Array(vec![seg_json(
        "text",
        obj(vec![("text", s("Some msg"))]),
    )]))
    .unwrap();
    assert!(msg1.contains("text"));
    assert!(msg2.contains("text"));
}

#[test]
fn __cq_to_arr() {
    let cq = "左边的消息[CQ:face,id=178]看看我刚拍的照片[CQ:image,file=123.jpg]右边的消息";
    let msg = cq_to_arr(cq.into());
    println!("{:?}", msg)
}

#[test]
fn cq_to_arr_splits_text_and_codes() {
    let cq = "左边的消息[CQ:face,id=178]看看我刚拍的照片[CQ:image,file=123.jpg]右边的消息";
    let msg = cq_to_arr(cq.into());
    let expected = Message(vec![
        text_seg("左边的消息"),
        seg("face", obj(vec![("id", s("178"))])),
        text_seg("看看我刚拍的照片"),
        seg("image", obj(vec![("file", s("123.jpg"))])),
        text_seg("右边的消息"),
    ]);
    assert_eq!(msg, expected);
}

#[test]
fn cq_to_arr_params_and_plain_text() {
    let msg = cq_to_arr(CQMessage::from("[CQ:at,qq=1,name=a=b]"));
    assert_eq!(msg, Message(vec![seg("at", obj(vec![("name", s("a=b")), ("qq", s("1"))]))]));
    let plain = cq_to_arr(CQMessage::from("no codes here [CQ: 1]"));
    assert_eq!(plain, Message(vec![text_seg("no codes here [CQ: 1]")]));
    let empty = cq_to_arr(CQMessage::from(""));
    assert_eq!(empty.len(), 0);
    let bare = cq_to_arr(CQMessage::from("[CQ:shake]"));
    assert_eq!(bare, Message(vec![seg("shake", obj(vec![]))]));
}

#[test]
fn cq_message_builders() {
    let cq = CQMessage::from("hi")
        .add_at("123")
        .add_face(178)
        .add_image("a.jpg")
        .add_text("x")
        .add_reply(-5);
    assert_eq!(
        String::from(cq),
        "[CQ:reply,id=-5]hi[CQ:at,qq=123][CQ:face,id=178][CQ:image,file=a.jpg][CQ:text,text=x]"
    );
}

#[test]
fn arr_to_cq_writes_each_code() {
    let m = Message(vec![text_seg("hi"), seg("face", obj(vec![("id", s("1"))])), seg("shake", obj(vec![]))]);
    let cq = arr_to_cq(m);
    assert_eq!(cq.0, "hi[CQ:face,id=1][CQ:shake]");
    assert_eq!(parse_cq_code(&text_seg("plain")), "plain");
    assert_eq!(parse_cq_code(&seg("image", obj(vec![("file", s("a")), ("n", Json::Int(1))]))), "[CQ:image,file=a]");
}

#[test]
fn message_builders() {
    let m = Message::new().add_text("hello").add_at("42").add_face(7).add_image("p.png").add_reply(9);
    assert_eq!(
        m,
        Message(vec![
            seg("reply", obj(vec![("id", s("9"))])),
            text_seg("hello"),
            seg("at", obj(vec![("qq", s("42"))])),
            seg("face", obj(vec![("id", s("7"))])),
            seg("image", obj(vec![("file", s("p.png"))])),
        ])
    );
    assert_eq!(m.to_human_string(), "[reply]hello[at][face][image]");
    assert!(m.contains("at"));
    assert!(!m.contains("record"));
    assert_eq!(m.get("at").len(), 1);
    assert_eq!(m.get("record").len(), 0);
}

#[test]
fn message_add_segment_ignores_non_segments() {
    let m = Message::new().add_segment(seg_json("face", obj(vec![("id", s("3"))])));
    assert_eq!(m, Message(vec![seg("face", obj(vec![("id", s("3"))]))]));
    let m2 = m.add_segment(obj(vec![("data", obj(vec![]))]));
    assert_eq!(m2.len(), 1);
    let m3 = m2.add_segment(Json::Array(vec![s("text"), obj(vec![("text", s("t"))])]));
    assert_eq!(m3.get("text")[0], text_seg("t"));
}

#[test]
fn message_from_value_errors() {
    match Message::from_value(Json::Int(1)) {
        Err(e) => assert_eq!(e.to_string(), "Parse error: Message::from_value only accept array"),
        Ok(_) => panic!("accepted a number"),
    }
    match Message::from_value(Json::Array(vec![Json::Int(1)])) {
        Err(MessageError::ParseError(t)) => assert_eq!(t, "invalid segment"),
        Ok(_) => panic!("accepted a number segment"),
    }
    let m = Message::from_value(s("plain")).unwrap();
    assert_eq!(m, Message::from("plain"));
}

#[test]
fn message_add_appends_reversed() {
    let a = Message::from("a");
    let b = Message::new().add_text("b").add_text("c");
    let sum = a + b;
    assert_eq!(sum, Message(vec![text_seg("a"), text_seg("c"), text_seg("b")]));
}

#[test]
fn message_next_pops_last() {
    let mut m = Message::new().add_text("1").add_text("2");
    assert_eq!(m.next().unwrap(), text_seg("2"));
    assert_eq!(m.next().unwrap(), text_seg("1"));
    assert!(m.next().is_none());
}

#[test]
fn json_copy_and_equality() {
    let j = obj(vec![("a", Json::Array(vec![Json::Null, Json::Bool(true), Json::OtherNumber("1.5".to_string())]))]);
    let c = kovi::message::copy_json(&j);
    assert!(json_eq(&j, &c));
    assert!(!json_eq(&j, &obj(vec![("a", Json::Null)])));
}

#[test]
fn readable_text_of_joined_segments() {
    let a = text_seg("a");
    let b = seg("face", obj(vec![("id", s("1"))]));
    let joined = Message(vec![text_seg("a"), seg("face", obj(vec![("id", s("1"))]))]);
    let left = Message(vec![a]).to_human_string();
    let right = Message(vec![b]).to_human_string();
    assert_eq!(joined.to_human_string(), left + &right);
    assert_eq!(Message::from("only text").to_human_string(), "only text");
}

#[test]
fn get_returns_every_segment_of_the_type() {
    let m = Message(vec![text_seg("1"), seg("face", obj(vec![])), text_seg("2")]);
    let texts = m.get("text");
    assert_eq!(texts, vec![text_seg("1"), text_seg("2")]);
    assert!(texts.iter().all(|x| x.type_ == "text"));
    assert_eq!(m.contains("face"), !m.get("face").is_empty());
    assert_eq!(m.contains("at"), !m.get("at").is_empty());
}

#[test]
fn face_code_reads_back() {
    for id in [0i64, 178, -3, i64::MAX, i64::MIN] {
        let cq = CQMessage::from("").add_face(id);
        assert_eq!(cq_to_arr(cq), Message::new().add_face(id));
    }
    let cq = CQMessage::from("a").add_segment(seg_json("face", obj(vec![("id", s("1"))])));
    assert_eq!(String::from(cq), "a[CQ:face,id=1]");
}

#[test]
fn cq_string_reads_back_as_the_message() {
    let m = Message::new()
        .add_segment(seg_json("text", obj(vec![("text", s("hi "))])))
        .add_segment(seg_json("at", obj(vec![("name", s("bob")), ("qq", s("42"))])))
        .add_segment(seg_json("text", obj(vec![("text", s("x"))])))
        .add_segment(seg_json("shake", obj(vec![])));
    let back = cq_to_arr(arr_to_cq(m.copy()));
    assert_eq!(back, m);
}
