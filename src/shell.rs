//! Pure rules of the editor shell around the converters: menu labels, the
//! interface language, and the recent-files list.
use vstd::prelude::*;

use crate::text::{
    chars_of, copy_range, lower_of, lowercase, pieces, same_chars, split_on, string_of,
};

verus! {

fn eq_literal(a: &Vec<char>, lit: &str) -> (r: bool)
    ensures
        r == (a@ == lit@),
{
    let b = chars_of(lit);
    same_chars(a, &b)
}

/// The English label of a menu key; an unknown key is its own label.
pub open spec fn english_label(key: Seq<char>) -> Seq<char> {
    if key == "file"@ {
        "File"@
    } else if key == "file_new"@ {
        "New File"@
    } else if key == "file_open"@ {
        "Open..."@
    } else if key == "file_save"@ {
        "Save"@
    } else if key == "file_save_as"@ {
        "Save As..."@
    } else if key == "file_close_document"@ {
        "Close Document"@
    } else if key == "format"@ {
        "Format"@
    } else if key == "format_text"@ {
        "Text"@
    } else if key == "format_bold"@ {
        "Bold"@
    } else if key == "format_italic"@ {
        "Italic"@
    } else if key == "format_strike"@ {
        "Strikethrough"@
    } else if key == "format_inline_code"@ {
        "Inline Code"@
    } else if key == "format_headings"@ {
        "Headings"@
    } else if key == "format_paragraph"@ {
        "Paragraph"@
    } else if key == "format_heading_1"@ {
        "Heading 1"@
    } else if key == "format_heading_2"@ {
        "Heading 2"@
    } else if key == "format_heading_3"@ {
        "Heading 3"@
    } else if key == "format_heading_4"@ {
        "Heading 4"@
    } else if key == "format_heading_5"@ {
        "Heading 5"@
    } else if key == "format_heading_6"@ {
        "Heading 6"@
    } else if key == "format_lists"@ {
        "Lists"@
    } else if key == "format_bullet_list"@ {
        "Bullet List"@
    } else if key == "format_ordered_list"@ {
        "Ordered List"@
    } else if key == "format_blocks"@ {
        "Blocks"@
    } else if key == "format_blockquote"@ {
        "Blockquote"@
    } else if key == "format_code_block"@ {
        "Code Block"@
    } else if key == "format_horizontal_rule"@ {
        "Horizontal Rule"@
    } else if key == "view"@ {
        "View"@
    } else if key == "view_source_code"@ {
        "Source Code"@
    } else if key == "view_theme"@ {
        "Theme"@
    } else if key == "view_language"@ {
        "Language"@
    } else if key == "lang_en"@ {
        "English"@
    } else if key == "lang_zh"@ {
        "繁體中文"@
    } else {
        key
    }
}

/// The Traditional Chinese label of a menu key; an unknown key is its own label.
pub open spec fn chinese_label(key: Seq<char>) -> Seq<char> {
    if key == "file"@ {
        "檔案"@
    } else if key == "file_new"@ {
        "新檔案"@
    } else if key == "file_open"@ {
        "開啟..."@
    } else if key == "file_save"@ {
        "儲存"@
    } else if key == "file_save_as"@ {
        "另存新檔..."@
    } else if key == "file_close_document"@ {
        "關閉文件"@
    } else if key == "format"@ {
        "格式"@
    } else if key == "format_text"@ {
        "文字"@
    } else if key == "format_bold"@ {
        "粗體"@
    } else if key == "format_italic"@ {
        "斜體"@
    } else if key == "format_strike"@ {
        "刪除線"@
    } else if key == "format_inline_code"@ {
        "行內程式碼"@
    } else if key == "format_headings"@ {
        "標題"@
    } else if key == "format_paragraph"@ {
        "本文"@
    } else if key == "format_heading_1"@ {
        "標題 1"@
    } else if key == "format_heading_2"@ {
        "標題 2"@
    } else if key == "format_heading_3"@ {
        "標題 3"@
    } else if key == "format_heading_4"@ {
        "標題 4"@
    } else if key == "format_heading_5"@ {
        "標題 5"@
    } else if key == "format_heading_6"@ {
        "標題 6"@
    } else if key == "format_lists"@ {
        "清單"@
    } else if key == "format_bullet_list"@ {
        "項目符號清單"@
    } else if key == "format_ordered_list"@ {
        "編號清單"@
    } else if key == "format_blocks"@ {
        "區塊"@
    } else if key == "format_blockquote"@ {
        "引用"@
    } else if key == "format_code_block"@ {
        "程式碼區塊"@
    } else if key == "format_horizontal_rule"@ {
        "水平分割線"@
    } else if key == "view"@ {
        "檢視"@
    } else if key == "view_source_code"@ {
        "原始碼"@
    } else if key == "view_theme"@ {
        "佈景主題"@
    } else if key == "view_language"@ {
        "語言"@
    } else if key == "lang_en"@ {
        "English"@
    } else if key == "lang_zh"@ {
        "繁體中文"@
    } else {
        key
    }
}

/// The label of a menu key in a language: Chinese for `zh`, English otherwise.
pub open spec fn label_of(lang: Seq<char>, key: Seq<char>) -> Seq<char> {
    if lang == "zh"@ {
        chinese_label(key)
    } else {
        english_label(key)
    }
}

fn english_label_chars(key: &Vec<char>) -> (r: Vec<char>)
    ensures
        r@ == english_label(key@),
{
    if eq_literal(key, "file") {
        chars_of("File")
    } else if eq_literal(key, "file_new") {
        chars_of("New File")
    } else if eq_literal(key, "file_open") {
        chars_of("Open...")
    } else if eq_literal(key, "file_save") {
        chars_of("Save")
    } else if eq_literal(key, "file_save_as") {
        chars_of("Save As...")
    } else if eq_literal(key, "file_close_document") {
        chars_of("Close Document")
    } else if eq_literal(key, "format") {
        chars_of("Format")
    } else if eq_literal(key, "format_text") {
        chars_of("Text")
    } else if eq_literal(key, "format_bold") {
        chars_of("Bold")
    } else if eq_literal(key, "format_italic") {
        chars_of("Italic")
    } else if eq_literal(key, "format_strike") {
        chars_of("Strikethrough")
    } else if eq_literal(key, "format_inline_code") {
        chars_of("Inline Code")
    } else if eq_literal(key, "format_headings") {
        chars_of("Headings")
    } else if eq_literal(key, "format_paragraph") {
        chars_of("Paragraph")
    } else if eq_literal(key, "format_heading_1") {
        chars_of("Heading 1")
    } else if eq_literal(key, "format_heading_2") {
        chars_of("Heading 2")
    } else if eq_literal(key, "format_heading_3") {
        chars_of("Heading 3")
    } else if eq_literal(key, "format_heading_4") {
        chars_of("Heading 4")
    } else if eq_literal(key, "format_heading_5") {
        chars_of("Heading 5")
    } else if eq_literal(key, "format_heading_6") {
        chars_of("Heading 6")
    } else if eq_literal(key, "format_lists") {
        chars_of("Lists")
    } else if eq_literal(key, "format_bullet_list") {
        chars_of("Bullet List")
    } else if eq_literal(key, "format_ordered_list") {
        chars_of("Ordered List")
    } else if eq_literal(key, "format_blocks") {
        chars_of("Blocks")
    } else if eq_literal(key, "format_blockquote") {
        chars_of("Blockquote")
    } else if eq_literal(key, "format_code_block") {
        chars_of("Code Block")
    } else if eq_literal(key, "format_horizontal_rule") {
        chars_of("Horizontal Rule")
    } else if eq_literal(key, "view") {
        chars_of("View")
    } else if eq_literal(key, "view_source_code") {
        chars_of("Source Code")
    } else if eq_literal(key, "view_theme") {
        chars_of("Theme")
    } else if eq_literal(key, "view_language") {
        chars_of("Language")
    } else if eq_literal(key, "lang_en") {
        chars_of("English")
    } else if eq_literal(key, "lang_zh") {
        chars_of("繁體中文")
    } else {
        copy_range(key, 0, key.len())
    }
}

fn chinese_label_chars(key: &Vec<char>) -> (r: Vec<char>)
    ensures
        r@ == chinese_label(key@),
{
    if eq_literal(key, "file") {
        chars_of("檔案")
    } else if eq_literal(key, "file_new") {
        chars_of("新檔案")
    } else if eq_literal(key, "file_open") {
        chars_of("開啟...")
    } else if eq_literal(key, "file_save") {
        chars_of("儲存")
    } else if eq_literal(key, "file_save_as") {
        chars_of("另存新檔...")
    } else if eq_literal(key, "file_close_document") {
        chars_of("關閉文件")
    } else if eq_literal(key, "format") {
        chars_of("格式")
    } else if eq_literal(key, "format_text") {
        chars_of("文字")
    } else if eq_literal(key, "format_bold") {
        chars_of("粗體")
    } else if eq_literal(key, "format_italic") {
        chars_of("斜體")
    } else if eq_literal(key, "format_strike") {
        chars_of("刪除線")
    } else if eq_literal(key, "format_inline_code") {
        chars_of("行內程式碼")
    } else if eq_literal(key, "format_headings") {
        chars_of("標題")
    } else if eq_literal(key, "format_paragraph") {
        chars_of("本文")
    } else if eq_literal(key, "format_heading_1") {
        chars_of("標題 1")
    } else if eq_literal(key, "format_heading_2") {
        chars_of("標題 2")
    } else if eq_literal(key, "format_heading_3") {
        chars_of("標題 3")
    } else if eq_literal(key, "format_heading_4") {
        chars_of("標題 4")
    } else if eq_literal(key, "format_heading_5") {
        chars_of("標題 5")
    } else if eq_literal(key, "format_heading_6") {
        chars_of("標題 6")
    } else if eq_literal(key, "format_lists") {
        chars_of("清單")
    } else if eq_literal(key, "format_bullet_list") {
        chars_of("項目符號清單")
    } else if eq_literal(key, "format_ordered_list") {
        chars_of("編號清單")
    } else if eq_literal(key, "format_blocks") {
        chars_of("區塊")
    } else if eq_literal(key, "format_blockquote") {
        chars_of("引用")
    } else if eq_literal(key, "format_code_block") {
        chars_of("程式碼區塊")
    } else if eq_literal(key, "format_horizontal_rule") {
        chars_of("水平分割線")
    } else if eq_literal(key, "view") {
        chars_of("檢視")
    } else if eq_literal(key, "view_source_code") {
        chars_of("原始碼")
    } else if eq_literal(key, "view_theme") {
        chars_of("佈景主題")
    } else if eq_literal(key, "view_language") {
        chars_of("語言")
    } else if eq_literal(key, "lang_en") {
        chars_of("English")
    } else if eq_literal(key, "lang_zh") {
        chars_of("繁體中文")
    } else {
        copy_range(key, 0, key.len())
    }
}

/// The label of a menu key in a language (`zh` or anything else for English).
pub fn get_label(lang: &str, key: &str) -> (r: String)
    ensures
        r@ == label_of(lang@, key@),
{
    let l = chars_of(lang);
    let k = chars_of(key);
    if eq_literal(&l, "zh") {
        string_of(&chinese_label_chars(&k))
    } else {
        string_of(&english_label_chars(&k))
    }
}

/// The supported language for a lower-cased language tag: `zh` when its
/// primary subtag (before the first `-`) is `zh`, else `en`.
pub open spec fn language_of_lowered(lowered: Seq<char>) -> Seq<char> {
    if pieces(lowered, "-"@)[0] == "zh"@ {
        "zh"@
    } else {
        "en"@
    }
}

/// The supported language for a language tag already lower-cased.
pub fn language_from_lowered(lowered: &str) -> (r: String)
    ensures
        r@ == language_of_lowered(lowered@),
{
    let l = chars_of(lowered);
    let dash = chars_of("-");
    proof {
        reveal_strlit("-");
    }
    let parts = split_on(&l, &dash);
    assert(crate::text::views(parts@)[0] == parts@[0]@);
    if eq_literal(&parts[0], "zh") {
        string_of(&chars_of("zh"))
    } else {
        string_of(&chars_of("en"))
    }
}

/// The supported language (`zh` or `en`) for a language tag such as `zh-TW`,
/// compared without regard to case.
pub fn normalize_language(lang: &str) -> (r: String)
    ensures
        r@ == language_of_lowered(lower_of(lang@)),
{
    let lowered = lowercase(lang);
    language_from_lowered(lowered.as_str())
}

/// Recent files kept at most.
pub const MAX_RECENT_FILES: usize = 10;

pub open spec fn without(list: Seq<Seq<char>>, path: Seq<char>) -> Seq<Seq<char>>
    decreases list.len(),
{
    if list.len() == 0 {
        Seq::empty()
    } else if list.last() == path {
        without(list.drop_last(), path)
    } else {
        without(list.drop_last(), path).push(list.last())
    }
}

/// The recent-files list after opening `path`: the path first, its earlier
/// entry removed, at most ten entries kept.
pub open spec fn recent_after(list: Seq<Seq<char>>, path: Seq<char>) -> Seq<Seq<char>> {
    let l = seq![path] + without(list, path);
    if l.len() > MAX_RECENT_FILES {
        l.take(MAX_RECENT_FILES as int)
    } else {
        l
    }
}

pub open spec fn string_list(v: Seq<String>) -> Seq<Seq<char>> {
    v.map_values(|s: String| s@)
}

/// The recent-files list after opening a file.
pub fn add_recent_file(list: &Vec<String>, path: &str) -> (r: Vec<String>)
    ensures
        string_list(r@) == recent_after(string_list(list@), path@),
{
    let p = chars_of(path);
    let ghost sl = string_list(list@);
    let mut kept: Vec<String> = Vec::new();
    kept.push(string_of(&p));
    let mut i: usize = 0;
    while i < list.len()
        invariant
            i <= list.len(),
            sl == string_list(list@),
            p@ == path@,
            string_list(kept@) == seq![path@] + without(sl.take(i as int), path@),
        decreases list.len() - i,
    {
        assert(sl.take(i + 1).drop_last() =~= sl.take(i as int));
        assert(sl[i as int] == list@[i as int]@);
        let c = chars_of(list[i].as_str());
        if !same_chars(&c, &p) {
            let ghost before = kept@;
            kept.push(string_of(&c));
            assert(string_list(kept@) =~= string_list(before).push(c@));
        }
        i = i + 1;
    }
    assert(sl.take(list.len() as int) =~= sl);
    if kept.len() > MAX_RECENT_FILES {
        kept.truncate(MAX_RECENT_FILES);
        assert(string_list(kept@) =~= recent_after(sl, path@));
    }
    kept
}

} // verus!
