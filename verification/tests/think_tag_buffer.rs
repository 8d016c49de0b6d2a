//! The think-tag buffer on chunked input.
use kokoro_chat::llm::think_tag_buffer::ThinkTagBuffer;


#[test]
fn test_no_think_tags() {
    let mut buf = ThinkTagBuffer::new();
    let (text, thinking) = buf.process_chunk("Hello world");
    assert_eq!(text, vec!["Hello world"]);
    assert!(thinking.is_empty());
}

#[test]
fn test_simple_think_block() {
    let mut buf = ThinkTagBuffer::new();
    let (text, thinking) = buf.process_chunk("before<think>inner</think>after");
    assert_eq!(text, vec!["before", "after"]);
    assert_eq!(thinking, vec!["inner"]);
}

#[test]
fn test_think_tag_split_across_chunks() {
    let mut buf = ThinkTagBuffer::new();

    // "<think>" が2チャンクにまたがるケース
    let (text1, thinking1) = buf.process_chunk("hello<thi");
    assert_eq!(text1, vec!["hello"]);
    assert!(thinking1.is_empty());

    let (text2, thinking2) = buf.process_chunk("nk>inside</think>world");
    assert!(text2 == vec!["world"]);
    assert_eq!(thinking2, vec!["inside"]);
}

#[test]
fn test_close_tag_split_across_chunks() {
    let mut buf = ThinkTagBuffer::new();

    let (text1, thinking1) = buf.process_chunk("<think>thinking content</thi");
    assert!(text1.is_empty());
    assert_eq!(thinking1, vec!["thinking content"]);

    let (text2, thinking2) = buf.process_chunk("nk>after");
    assert_eq!(text2, vec!["after"]);
    assert!(thinking2.is_empty());
}

#[test]
fn test_multiple_think_blocks() {
    let mut buf = ThinkTagBuffer::new();
    let (text, thinking) = buf.process_chunk("a<think>t1</think>b<think>t2</think>c");
    assert_eq!(text, vec!["a", "b", "c"]);
    assert_eq!(thinking, vec!["t1", "t2"]);
}

#[test]
fn test_flush_with_pending_outside_think() {
    let mut buf = ThinkTagBuffer::new();

    // 末尾が開始タグの部分一致で終わる
    let (text, thinking) = buf.process_chunk("hello<th");
    assert_eq!(text, vec!["hello"]);
    assert!(thinking.is_empty());

    // flush: タグではなかったのでテキストとして出力
    let (ftext, fthinking) = buf.flush();
    assert_eq!(ftext, vec!["<th"]);
    assert!(fthinking.is_empty());
}

#[test]
fn test_flush_with_pending_inside_think() {
    let mut buf = ThinkTagBuffer::new();

    let (text, thinking) = buf.process_chunk("<think>partial thinking</thi");
    assert!(text.is_empty());
    assert_eq!(thinking, vec!["partial thinking"]);

    // flush: thinking中なのでthinking contentとして確定
    let (ftext, fthinking) = buf.flush();
    assert!(ftext.is_empty());
    assert_eq!(fthinking, vec!["</thi"]);
}

#[test]
fn test_unclosed_think_tag_flush() {
    let mut buf = ThinkTagBuffer::new();

    let (text, thinking) = buf.process_chunk("<think>unclosed content");
    assert!(text.is_empty());
    assert_eq!(thinking, vec!["unclosed content"]);

    // ストリーム終了: 未閉じの場合、pendingは空だがinside_thinkのままflush
    let (ftext, fthinking) = buf.flush();
    assert!(ftext.is_empty());
    assert!(fthinking.is_empty());
}

#[test]
fn test_empty_chunk() {
    let mut buf = ThinkTagBuffer::new();
    let (text, thinking) = buf.process_chunk("");
    assert!(text.is_empty());
    assert!(thinking.is_empty());
}

#[test]
fn test_only_think_content() {
    let mut buf = ThinkTagBuffer::new();
    let (text, thinking) = buf.process_chunk("<think>all thinking</think>");
    assert!(text.is_empty());
    assert_eq!(thinking, vec!["all thinking"]);
}

#[test]
fn test_sequential_chunks_without_tags() {
    let mut buf = ThinkTagBuffer::new();
    let (t1, th1) = buf.process_chunk("chunk1");
    let (t2, th2) = buf.process_chunk(" chunk2");
    let (t3, th3) = buf.process_chunk(" chunk3");
    assert_eq!(t1, vec!["chunk1"]);
    assert_eq!(t2, vec![" chunk2"]);
    assert_eq!(t3, vec![" chunk3"]);
    assert!(th1.is_empty());
    assert!(th2.is_empty());
    assert!(th3.is_empty());
}

#[test]
fn test_think_content_spanning_multiple_chunks() {
    let mut buf = ThinkTagBuffer::new();

    let (t1, th1) = buf.process_chunk("<think>first ");
    assert!(t1.is_empty());
    assert_eq!(th1, vec!["first "]);

    let (t2, th2) = buf.process_chunk("second ");
    assert!(t2.is_empty());
    assert_eq!(th2, vec!["second "]);

    let (t3, th3) = buf.process_chunk("third</think>done");
    assert_eq!(t3, vec!["done"]);
    assert_eq!(th3, vec!["third"]);
}

#[test]
fn test_multibyte_char_at_tail_outside_think() {
    // 「」はUTF-8で3バイト。末尾がマルチバイト文字でもpanicしないこと
    let mut buf = ThinkTagBuffer::new();
    let (text, thinking) = buf.process_chunk("「");
    assert_eq!(text, vec!["「"]);
    assert!(thinking.is_empty());
}

#[test]
fn test_multibyte_char_at_tail_inside_think() {
    // thinking内でマルチバイト文字が末尾に来てもpanicしないこと
    let mut buf = ThinkTagBuffer::new();
    let (text, thinking) = buf.process_chunk("<think>思考「");
    assert!(text.is_empty());
    assert_eq!(thinking, vec!["思考「"]);
}

#[test]
fn test_multibyte_mixed_with_partial_tag() {
    // マルチバイト文字の後に部分タグが来るケース
    let mut buf = ThinkTagBuffer::new();
    let (text, thinking) = buf.process_chunk("テスト「」<thi");
    assert_eq!(text, vec!["テスト「」"]);
    assert!(thinking.is_empty());

    let (text2, thinking2) = buf.process_chunk("nk>内容</think>終了");
    assert_eq!(text2, vec!["終了"]);
    assert_eq!(thinking2, vec!["内容"]);
}
