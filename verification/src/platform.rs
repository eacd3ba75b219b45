//! Text for the platform helpers: the login item property list and the
//! notification script, with the escaping each needs.

use vstd::prelude::*;
use crate::setup::contains_text;
use crate::text::{append_str, chars_of, has_prefix, push_char};

verus! {

/// How one character is written in XML text.
pub open spec fn xml_char(c: char) -> Seq<char> {
    if c == '&' {
        "&amp;"@
    } else if c == '<' {
        "&lt;"@
    } else if c == '>' {
        "&gt;"@
    } else {
        seq![c]
    }
}

/// `s` with `&`, `<` and `>` escaped for XML text.
pub open spec fn xml_escaped(s: Seq<char>) -> Seq<char>
    decreases s.len(),
{
    if s.len() == 0 {
        Seq::empty()
    } else {
        xml_escaped(s.drop_last()) + xml_char(s.last())
    }
}

/// How one character is written inside an AppleScript string literal:
/// backslash and double quote escaped, a newline as a space.
pub open spec fn osascript_char(c: char) -> Seq<char> {
    if c == '\\' {
        seq!['\\', '\\']
    } else if c == '"' {
        seq!['\\', '"']
    } else if c == '\n' {
        seq![' ']
    } else {
        seq![c]
    }
}

pub open spec fn osascript_escaped(s: Seq<char>) -> Seq<char>
    decreases s.len(),
{
    if s.len() == 0 {
        Seq::empty()
    } else {
        osascript_escaped(s.drop_last()) + osascript_char(s.last())
    }
}

proof fn lemma_take_push(s: Seq<char>, i: int)
    requires
        0 <= i < s.len(),
    ensures
        s.take(i + 1).drop_last() == s.take(i),
        s.take(i + 1).last() == s[i],
{
    assert(s.take(i + 1).drop_last() =~= s.take(i));
}

/// `s` escaped for XML text (`&` → `&amp;`, `<` → `&lt;`, `>` → `&gt;`).
pub fn escape_xml(s: &str) -> (r: String)
    ensures
        r@ == xml_escaped(s@),
{
    let cs = chars_of(s);
    let mut out = String::new();
    let mut i: usize = 0;
    while i < cs.len()
        invariant
            i <= cs@.len(),
            cs@ == s@,
            out@ == xml_escaped(cs@.take(i as int)),
        decreases cs.len() - i,
    {
        let c = cs[i];
        proof {
            lemma_take_push(cs@, i as int);
        }
        if c == '&' {
            append_str(&mut out, "&amp;");
        } else if c == '<' {
            append_str(&mut out, "&lt;");
        } else if c == '>' {
            append_str(&mut out, "&gt;");
        } else {
            push_char(&mut out, c);
        }
        assert(out@ =~= xml_escaped(cs@.take(i + 1)));
        i = i + 1;
    }
    assert(cs@.take(cs@.len() as int) =~= s@);
    out
}

/// `s` escaped for an AppleScript string literal (`\` → `\\`, `"` → `\"`,
/// newline → space).
pub fn escape_osascript(s: &str) -> (r: String)
    ensures
        r@ == osascript_escaped(s@),
{
    let cs = chars_of(s);
    let mut out = String::new();
    let mut i: usize = 0;
    while i < cs.len()
        invariant
            i <= cs@.len(),
            cs@ == s@,
            out@ == osascript_escaped(cs@.take(i as int)),
        decreases cs.len() - i,
    {
        let c = cs[i];
        proof {
            lemma_take_push(cs@, i as int);
        }
        if c == '\\' {
            push_char(&mut out, '\\');
            push_char(&mut out, '\\');
        } else if c == '"' {
            push_char(&mut out, '\\');
            push_char(&mut out, '"');
        } else if c == '\n' {
            push_char(&mut out, ' ');
        } else {
            push_char(&mut out, c);
        }
        assert(out@ =~= osascript_escaped(cs@.take(i + 1)));
        i = i + 1;
    }
    assert(cs@.take(cs@.len() as int) =~= s@);
    out
}

/// The AppleScript that shows a notification.
pub open spec fn notify_script_spec(title: Seq<char>, body: Seq<char>) -> Seq<char> {
    "display notification \""@ + osascript_escaped(body) + "\" with title \""@ + osascript_escaped(title) + "\""@
}

/// The AppleScript that shows a notification with the given title and body.
pub fn notify_script(title: &str, body: &str) -> (r: String)
    ensures
        r@ == notify_script_spec(title@, body@),
{
    let mut s = String::new();
    append_str(&mut s, "display notification \"");
    let b = escape_osascript(body);
    append_str(&mut s, b.as_str());
    append_str(&mut s, "\" with title \"");
    let t = escape_osascript(title);
    append_str(&mut s, t.as_str());
    append_str(&mut s, "\"");
    assert(s@ =~= notify_script_spec(title@, body@));
    s
}

pub open spec fn plist_head() -> Seq<char> {
    "<?xml version=\"1.0\" encoding=\"UTF-8\"?>\n<!DOCTYPE plist PUBLIC \"-//Apple//DTD PLIST 1.0//EN\" \"http://www.apple.com/DTDs/PropertyList-1.0.dtd\">\n<plist version=\"1.0\">\n<dict>\n<key>Label</key><string>com.zhuanz.mytask</string>\n<key>Program</key><string>"@
}

pub open spec fn plist_tail() -> Seq<char> {
    "</string>\n<key>RunAtLoad</key><true/>\n<key>ProcessType</key><string>Interactive</string>\n</dict>\n</plist>\n"@
}

/// The launch agent property list that starts `exe` at login.
pub fn autostart_plist(exe: &str) -> (r: String)
    ensures
        r@ == plist_head() + xml_escaped(exe@) + plist_tail(),
{
    let mut s = String::new();
    append_str(
        &mut s,
        "<?xml version=\"1.0\" encoding=\"UTF-8\"?>\n<!DOCTYPE plist PUBLIC \"-//Apple//DTD PLIST 1.0//EN\" \"http://www.apple.com/DTDs/PropertyList-1.0.dtd\">\n<plist version=\"1.0\">\n<dict>\n<key>Label</key><string>com.zhuanz.mytask</string>\n<key>Program</key><string>",
    );
    let e = escape_xml(exe);
    append_str(&mut s, e.as_str());
    append_str(
        &mut s,
        "</string>\n<key>RunAtLoad</key><true/>\n<key>ProcessType</key><string>Interactive</string>\n</dict>\n</plist>\n",
    );
    assert(s@ =~= plist_head() + xml_escaped(exe@) + plist_tail());
    s
}


/// XML-escaped text holds no `<` and no `>`: whatever the input, it cannot
/// open or close an element.
pub proof fn law_xml_escaped_has_no_markup(s: Seq<char>)
    ensures
        forall|k: int| 0 <= k < xml_escaped(s).len() ==> #[trigger] xml_escaped(s)[k] != '<' && xml_escaped(s)[k] != '>',
    decreases s.len(),
{
    if s.len() > 0 {
        law_xml_escaped_has_no_markup(s.drop_last());
        let pre = xml_escaped(s.drop_last());
        let part = xml_char(s.last());
        assert(xml_escaped(s) == pre + part);
        assert forall|k: int| 0 <= k < xml_escaped(s).len() implies #[trigger] xml_escaped(s)[k] != '<' && xml_escaped(s)[k] != '>' by {
            if k < pre.len() {
                assert(xml_escaped(s)[k] == pre[k]);
            } else {
                assert(xml_escaped(s)[k] == part[k - pre.len()]);
                let c = s.last();
                if c == '&' {
                    assert(part =~= seq!['&', 'a', 'm', 'p', ';']) by { reveal_strlit("&amp;"); }
                } else if c == '<' {
                    assert(part =~= seq!['&', 'l', 't', ';']) by { reveal_strlit("&lt;"); }
                } else if c == '>' {
                    assert(part =~= seq!['&', 'g', 't', ';']) by { reveal_strlit("&gt;"); }
                }
            }
        }
    }
}

/// Text escaped for an AppleScript string literal is one line, and each
/// double quote in it is preceded by a backslash: it cannot end the
/// literal it is put in.
pub proof fn law_osascript_escaped_stays_in_literal(s: Seq<char>)
    ensures
        forall|k: int| 0 <= k < osascript_escaped(s).len() ==> #[trigger] osascript_escaped(s)[k] != '\n',
        forall|k: int|
            0 <= k < osascript_escaped(s).len() && #[trigger] osascript_escaped(s)[k] == '"' ==> k > 0
                && osascript_escaped(s)[k - 1] == '\\',
    decreases s.len(),
{
    if s.len() > 0 {
        law_osascript_escaped_stays_in_literal(s.drop_last());
        let pre = osascript_escaped(s.drop_last());
        let part = osascript_char(s.last());
        let out = osascript_escaped(s);
        assert(out == pre + part);
        assert forall|k: int| 0 <= k < out.len() implies #[trigger] out[k] != '\n' && (out[k] == '"' ==> k > 0 && out[k - 1] == '\\') by {
            if k < pre.len() {
                assert(out[k] == pre[k]);
                if k > 0 {
                    assert(out[k - 1] == pre[k - 1]);
                }
            } else {
                assert(out[k] == part[k - pre.len()]);
                if k == pre.len() + 1 {
                    assert(out[k - 1] == part[0]);
                }
            }
        }
    }
}


/// Reading XML text back: `&amp;`, `&lt;` and `&gt;` as the characters
/// they stand for, every other character as itself.
pub open spec fn xml_unescaped(s: Seq<char>) -> Seq<char>
    decreases s.len(),
{
    if s.len() == 0 {
        Seq::empty()
    } else if s.len() >= 5 && s.take(5) == "&amp;"@ {
        seq!['&'] + xml_unescaped(s.skip(5))
    } else if s.len() >= 4 && s.take(4) == "&lt;"@ {
        seq!['<'] + xml_unescaped(s.skip(4))
    } else if s.len() >= 4 && s.take(4) == "&gt;"@ {
        seq!['>'] + xml_unescaped(s.skip(4))
    } else {
        seq![s[0]] + xml_unescaped(s.skip(1))
    }
}

proof fn lemma_xml_escaped_front(s: Seq<char>)
    requires
        s.len() > 0,
    ensures
        xml_escaped(s) == xml_char(s[0]) + xml_escaped(s.skip(1)),
    decreases s.len(),
{
    if s.len() == 1 {
        assert(s.drop_last() =~= Seq::<char>::empty());
        assert(s.skip(1) =~= Seq::<char>::empty());
        assert(xml_escaped(s) =~= xml_char(s[0]) + xml_escaped(s.skip(1)));
    } else {
        lemma_xml_escaped_front(s.drop_last());
        assert(s.drop_last().skip(1) =~= s.skip(1).drop_last());
        assert(s.skip(1).last() == s.last());
        assert(s.drop_last()[0] == s[0]);
        assert(xml_escaped(s) =~= xml_char(s[0]) + xml_escaped(s.skip(1)));
    }
}

proof fn lemma_xml_unescape_one(c: char, rest: Seq<char>)
    ensures
        xml_unescaped(xml_char(c) + rest) == seq![c] + xml_unescaped(rest),
{
    reveal_strlit("&amp;");
    reveal_strlit("&lt;");
    reveal_strlit("&gt;");
    let t = xml_char(c) + rest;
    if c == '&' {
        assert(t.take(5) =~= "&amp;"@);
        assert(t.skip(5) =~= rest);
    } else if c == '<' {
        assert(t[1] == 'l');
        if t.len() >= 5 {
            assert(t.take(5)[1] != "&amp;"@[1]);
        }
        assert(t.take(4) =~= "&lt;"@);
        assert(t.skip(4) =~= rest);
    } else if c == '>' {
        assert(t[1] == 'g');
        if t.len() >= 5 {
            assert(t.take(5)[1] != "&amp;"@[1]);
        }
        assert(t.take(4) != "&lt;"@) by {
            assert(t.take(4)[1] != "&lt;"@[1]);
        }
        assert(t.take(4) =~= "&gt;"@);
        assert(t.skip(4) =~= rest);
    } else {
        assert(t[0] == c);
        if t.len() >= 5 {
            assert(t.take(5)[0] != "&amp;"@[0]);
        }
        if t.len() >= 4 {
            assert(t.take(4)[0] != "&lt;"@[0]);
            assert(t.take(4)[0] != "&gt;"@[0]);
        }
        assert(t.skip(1) =~= rest);
    }
}

/// XML-escaped text reads back as the text escaped: no character is lost
/// or changed.
pub proof fn law_xml_escape_reads_back(s: Seq<char>)
    ensures
        xml_unescaped(xml_escaped(s)) == s,
    decreases s.len(),
{
    if s.len() == 0 {
        assert(xml_escaped(s) =~= Seq::<char>::empty());
    } else {
        lemma_xml_escaped_front(s);
        lemma_xml_unescape_one(s[0], xml_escaped(s.skip(1)));
        law_xml_escape_reads_back(s.skip(1));
        assert(seq![s[0]] + s.skip(1) =~= s);
    }
}


/// The launch agent property list starts the program at login: it is an
/// XML property list labelled `com.zhuanz.mytask` whose program is the
/// executable given (escaped), and it says `RunAtLoad` is true.
pub proof fn law_plist_starts_program_at_login(exe: Seq<char>)
    ensures
        ({
            let p = plist_head() + xml_escaped(exe) + plist_tail();
            &&& has_prefix(p, "<?xml version=\"1.0\" encoding=\"UTF-8\"?>"@)
            &&& contains_text(p, "<key>Label</key><string>com.zhuanz.mytask</string>"@)
            &&& contains_text(p, "<key>Program</key><string>"@ + xml_escaped(exe) + "</string>"@)
            &&& contains_text(p, "<key>RunAtLoad</key><true/>"@)
        }),
{
    let h = plist_head();
    let e = xml_escaped(exe);
    let t = plist_tail();
    let p = h + e + t;
    reveal_strlit("<?xml version=\"1.0\" encoding=\"UTF-8\"?>\n<!DOCTYPE plist PUBLIC \"-//Apple//DTD PLIST 1.0//EN\" \"http://www.apple.com/DTDs/PropertyList-1.0.dtd\">\n<plist version=\"1.0\">\n<dict>\n<key>Label</key><string>com.zhuanz.mytask</string>\n<key>Program</key><string>");
    reveal_strlit("</string>\n<key>RunAtLoad</key><true/>\n<key>ProcessType</key><string>Interactive</string>\n</dict>\n</plist>\n");
    reveal_strlit("<?xml version=\"1.0\" encoding=\"UTF-8\"?>");
    reveal_strlit("<key>Label</key><string>com.zhuanz.mytask</string>");
    reveal_strlit("<key>Program</key><string>");
    reveal_strlit("</string>");
    reveal_strlit("<key>RunAtLoad</key><true/>");
    assert(h.len() == 248);
    let x = "<?xml version=\"1.0\" encoding=\"UTF-8\"?>"@;
    assert(p.take(38) =~= h.take(38));
    assert(h.take(38) =~= x);
    assert(has_prefix(p, x));
    let lab = "<key>Label</key><string>com.zhuanz.mytask</string>"@;
    assert(p.subrange(171, 221) =~= h.subrange(171, 221));
    assert(h.subrange(171, 221) =~= lab);
    assert(p.subrange(171, 171 + lab.len() as int) == lab);
    assert(contains_text(p, lab));
    let pg = "<key>Program</key><string>"@ + e + "</string>"@;
    assert(h.subrange(222, 248) =~= "<key>Program</key><string>"@);
    assert(t.subrange(0, 9) =~= "</string>"@);
    assert(p.subrange(222, 222 + pg.len() as int) =~= pg);
    assert(contains_text(p, pg));
    let run = "<key>RunAtLoad</key><true/>"@;
    let k = (h.len() + e.len() + 10) as int;
    assert(t.subrange(10, 37) =~= run);
    assert(p.subrange(k, k + run.len() as int) =~= run);
    assert(contains_text(p, run));
}

} // verus!
