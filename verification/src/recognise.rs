//! Recognising what the ROM prints: its menu, and its verdict on a burn.

use crate::text;
use crate::text::contains_ignore_case;
use vstd::prelude::*;
use vstd::utf8::*;

verus! {

/// Whether a text occurs in what was received, up to the case of ASCII letters.
pub open spec fn says(buf: Seq<u8>, word: &str) -> bool {
    text::occurs(buf, encode_utf8(word@))
}

/// Whether what was received is the bootloader menu: the banner and both burn entries.
pub open spec fn is_isp_menu(buf: Seq<u8>) -> bool {
    &&& says(buf, "BootLoader")
    &&& says(buf, "Burn M4 Firmware")
    &&& says(buf, "Burn Wireless Firmware")
}

/// What the ROM has said of the upgrade. That it was unsuccessful is a failure, though the word for
/// success is part of it; otherwise a stated success outweighs every failure word.
pub open spec fn verdict(buf: Seq<u8>) -> Option<bool> {
    if says(buf, "unsuccessful") {
        Some(false)
    } else if says(buf, "Successful") {
        Some(true)
    } else if says(buf, "fail") || says(buf, "error") || says(buf, "corrupt") || says(
        buf,
        "invalid",
    ) {
        Some(false)
    } else {
        None
    }
}

/// Recognises the bootloader menu. Real content is looked for, so that the log of an application
/// on a mis-wired console port is not taken for a bootloader that is ready for an image.
pub fn looks_like_isp_menu(buf: &[u8]) -> (menu: bool)
    ensures
        menu == is_isp_menu(buf@),
{
    proof {
        reveal_strlit("BootLoader");
        reveal_strlit("Burn M4 Firmware");
        reveal_strlit("Burn Wireless Firmware");
    }
    contains_ignore_case(buf, "BootLoader") && contains_ignore_case(buf, "Burn M4 Firmware")
        && contains_ignore_case(buf, "Burn Wireless Firmware")
}

/// `Some(true)`: the ROM said that the upgrade worked. `Some(false)`: it said that it failed.
/// `None`: nothing conclusive yet.
pub fn classify_report(buf: &[u8]) -> (said: Option<bool>)
    ensures
        said == verdict(buf@),
{
    proof {
        reveal_strlit("unsuccessful");
        reveal_strlit("Successful");
        reveal_strlit("fail");
        reveal_strlit("error");
        reveal_strlit("corrupt");
        reveal_strlit("invalid");
    }
    if contains_ignore_case(buf, "unsuccessful") {
        return Some(false);
    }
    if contains_ignore_case(buf, "Successful") {
        return Some(true);
    }
    if contains_ignore_case(buf, "fail") || contains_ignore_case(buf, "error")
        || contains_ignore_case(buf, "corrupt") || contains_ignore_case(buf, "invalid") {
        return Some(false);
    }
    None
}

/// What ends a wait for text early.
#[derive(Clone, Copy, Debug, PartialEq, Eq, Structural)]
pub enum Accept {
    /// Nothing does.
    Never,
    /// The bootloader menu does.
    Menu,
    /// A verdict on the upgrade does, be it good or bad.
    Verdict,
}

impl Accept {
    pub open spec fn holds(self, buf: Seq<u8>) -> bool {
        match self {
            Accept::Never => false,
            Accept::Menu => is_isp_menu(buf),
            Accept::Verdict => verdict(buf) is Some,
        }
    }

    pub fn test(self, buf: &[u8]) -> (ok: bool)
        ensures
            ok == self.holds(buf@),
    {
        match self {
            Accept::Never => false,
            Accept::Menu => looks_like_isp_menu(buf),
            Accept::Verdict => classify_report(buf).is_some(),
        }
    }
}

/// A menu that has been recognised stays recognised whatever comes in behind it.
pub proof fn law_menu_is_stable(buf: Seq<u8>, more: Seq<u8>)
    requires
        is_isp_menu(buf),
    ensures
        is_isp_menu(buf + more),
{
    text::lemma_occurs_extends(buf, more, encode_utf8("BootLoader"@));
    text::lemma_occurs_extends(buf, more, encode_utf8("Burn M4 Firmware"@));
    text::lemma_occurs_extends(buf, more, encode_utf8("Burn Wireless Firmware"@));
}

/// A stated success stays one whatever comes in behind it, unless that makes it unsuccessful.
pub proof fn law_success_is_stable(buf: Seq<u8>, more: Seq<u8>)
    requires
        verdict(buf) == Some(true),
        !says(buf + more, "unsuccessful"),
    ensures
        verdict(buf + more) == Some(true),
{
    text::lemma_occurs_extends(buf, more, encode_utf8("Successful"@));
}

/// An upgrade that was said to be unsuccessful has failed, whatever else was said before or is
/// said later.
pub proof fn law_unsuccessful_is_a_failure(buf: Seq<u8>, more: Seq<u8>)
    requires
        says(buf, "unsuccessful"),
    ensures
        verdict(buf) == Some(false),
        verdict(buf + more) == Some(false),
{
    text::lemma_occurs_extends(buf, more, encode_utf8("unsuccessful"@));
}

/// Once there is a verdict there is one for good, though what comes later can turn it.
pub proof fn law_verdict_is_not_withdrawn(buf: Seq<u8>, more: Seq<u8>)
    requires
        verdict(buf) is Some,
    ensures
        verdict(buf + more) is Some,
{
    if says(buf, "unsuccessful") {
        text::lemma_occurs_extends(buf, more, encode_utf8("unsuccessful"@));
    } else if says(buf, "Successful") {
        text::lemma_occurs_extends(buf, more, encode_utf8("Successful"@));
    } else if says(buf, "fail") {
        text::lemma_occurs_extends(buf, more, encode_utf8("fail"@));
    } else if says(buf, "error") {
        text::lemma_occurs_extends(buf, more, encode_utf8("error"@));
    } else if says(buf, "corrupt") {
        text::lemma_occurs_extends(buf, more, encode_utf8("corrupt"@));
    } else {
        text::lemma_occurs_extends(buf, more, encode_utf8("invalid"@));
    }
}

/// The upgrade counts as a success only if the ROM said the word for it, and did not say that it
/// was unsuccessful.
pub proof fn law_success_has_to_be_said(buf: Seq<u8>)
    ensures
        verdict(buf) == Some(true) <==> text::occurs(buf, encode_utf8("Successful"@))
            && !text::occurs(buf, encode_utf8("unsuccessful"@)),
{
}

/// Without the word for success, one of the words for a failure is what makes it one.
pub proof fn law_failure_has_to_be_said(buf: Seq<u8>)
    requires
        !text::occurs(buf, encode_utf8("Successful"@)),
    ensures
        verdict(buf) == Some(false) <==> text::occurs(buf, encode_utf8("fail"@)) || text::occurs(
            buf,
            encode_utf8("error"@),
        ) || text::occurs(buf, encode_utf8("corrupt"@)) || text::occurs(
            buf,
            encode_utf8("invalid"@),
        ),
        verdict(buf) is None <==> !text::occurs(buf, encode_utf8("fail"@)) && !text::occurs(
            buf,
            encode_utf8("error"@),
        ) && !text::occurs(buf, encode_utf8("corrupt"@)) && !text::occurs(
            buf,
            encode_utf8("invalid"@),
        ),
{
    if text::occurs(buf, encode_utf8("unsuccessful"@)) {
        lemma_unsuccessful_holds_successful(buf);
    }
}

proof fn lemma_unsuccessful_holds_successful(buf: Seq<u8>)
    requires
        text::occurs(buf, encode_utf8("unsuccessful"@)),
    ensures
        text::occurs(buf, encode_utf8("Successful"@)),
{
    reveal_strlit("unsuccessful");
    reveal_strlit("Successful");
    let long = "unsuccessful"@;
    let short = "Successful"@;
    is_ascii_chars_encode_utf8(long);
    is_ascii_chars_encode_utf8(short);
    let at = text::law_found_only_where_it_stands(buf, encode_utf8(long));
    assert forall|j: int| 0 <= j < encode_utf8(short).len() implies ({
        let x = #[trigger] buf[at + 2 + j];
        let y = encode_utf8(short)[j];
        x == y || 65 <= x <= 90 && y == x + 32 || 65 <= y <= 90 && x == y + 32
    }) by {
        let k = j + 2;
        assert(buf[at + k] == buf[at + 2 + j]);
        assert(encode_utf8(long)[k] == long[k] as u8);
        assert(encode_utf8(short)[j] == short[j] as u8);
        assert(j > 0 ==> long[k] == short[j]);
    }
    text::law_found_where_it_stands(buf, encode_utf8(short), at + 2);
}

/// That an upgrade was unsuccessful is a failure, though the word for success is found in it.
pub proof fn law_unsuccessful_is_no_success(buf: Seq<u8>)
    requires
        text::occurs(buf, encode_utf8("unsuccessful"@)),
    ensures
        text::occurs(buf, encode_utf8("Successful"@)),
        verdict(buf) == Some(false),
{
    lemma_unsuccessful_holds_successful(buf);
}

/// The menu is what holds the banner and both burn entries, and nothing else is.
pub proof fn law_menu_has_banner_and_both_entries(buf: Seq<u8>)
    ensures
        is_isp_menu(buf) <==> text::occurs(buf, encode_utf8("BootLoader"@)) && text::occurs(
            buf,
            encode_utf8("Burn M4 Firmware"@),
        ) && text::occurs(buf, encode_utf8("Burn Wireless Firmware"@)),
{
}

/// What a wait takes for the end of it: nothing, the menu, or a verdict of either kind.
pub proof fn law_what_ends_a_wait(buf: Seq<u8>)
    ensures
        !Accept::Never.holds(buf),
        Accept::Menu.holds(buf) <==> is_isp_menu(buf),
        Accept::Verdict.holds(buf) <==> verdict(buf) == Some(true) || verdict(buf) == Some(false),
{
}

} // verus!
