use below_attr::{Key, LiteralKind};

const TABLE: [(&str, Key, LiteralKind); 17] = [
    ("title", Key::Title, LiteralKind::Str),
    ("sort_tag", Key::SortTag, LiteralKind::Str),
    ("tag", Key::Tag, LiteralKind::Str),
    ("class", Key::Class, LiteralKind::Str),
    ("dfill_struct", Key::DfillStruct, LiteralKind::Str),
    ("unit", Key::Unit, LiteralKind::Str),
    ("decorator", Key::Decorator, LiteralKind::Str),
    ("depth", Key::Depth, LiteralKind::Str),
    ("prefix", Key::Prefix, LiteralKind::Str),
    ("width", Key::Width, LiteralKind::UnsignedInt),
    ("title_width", Key::TitleWidth, LiteralKind::UnsignedInt),
    ("precision", Key::Precision, LiteralKind::UnsignedInt),
    ("none_mark", Key::NoneMark, LiteralKind::Str),
    ("highlight_if", Key::HighlightIf, LiteralKind::Str),
    ("cmp", Key::Cmp, LiteralKind::Bool),
    ("gen", Key::Gen, LiteralKind::Bool),
    ("class_detail", Key::ClassDetail, LiteralKind::Bool),
];

#[test]
fn every_key_is_found_under_its_name() {
    for (name, key, _) in TABLE {
        assert_eq!(Key::lookup(&name.to_string()), Some(key));
        assert_eq!(key.text(), name);
    }
}

#[test]
fn every_key_takes_its_kind_of_literal() {
    for (_, key, kind) in TABLE {
        assert_eq!(key.expected_kind(), kind);
    }
}

#[test]
fn other_words_are_no_keys() {
    for word in ["", "foo", "Title", "title ", "no_show", "link", "widths", "blink", "bttr"] {
        assert_eq!(Key::lookup(&word.to_string()), None);
    }
}

#[test]
fn only_depth_and_prefix_are_lexed() {
    for (_, key, _) in TABLE {
        assert_eq!(key.takes_expression(), key == Key::Depth || key == Key::Prefix);
    }
}

#[test]
fn every_key_touches_a_record() {
    for (_, key, _) in TABLE {
        assert!(key.affects_view() || key.affects_field());
        if key != Key::Title {
            assert!(!(key.affects_view() && key.affects_field()));
        }
    }
    assert!(Key::Title.affects_view() && Key::Title.affects_field());
    assert!(Key::Class.affects_field() && Key::DfillStruct.affects_field());
    assert!(Key::NoneMark.affects_view() && Key::Unit.affects_view());
}

#[test]
fn is_word_compares_whole_texts() {
    assert!(below_attr::key::is_word(&"bttr".to_string(), "bttr"));
    assert!(!below_attr::key::is_word(&"bttr".to_string(), "bttrs"));
    assert!(!below_attr::key::is_word(&"".to_string(), "bttr"));
}
