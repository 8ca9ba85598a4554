//! The icons: one markup for each name.

use crate::text::same;
use vstd::prelude::*;

verus! {

/// The inner markup of an icon; a circle for a name that is not known.
pub open spec fn icon_markup(name: Seq<char>) -> Seq<char> {
    if name == "overview"@ {
        "<line x1='6' y1='20' x2='6' y2='13'/><line x1='12' y1='20' x2='12' y2='8'/><line x1='18' y1='20' x2='18' y2='4'/>"@
    } else if name == "search"@ {
        "<circle cx='11' cy='11' r='7'/><line x1='21' y1='21' x2='16.5' y2='16.5'/>"@
    } else if name == "settings"@ {
        "<line x1='4' y1='8' x2='20' y2='8'/><line x1='4' y1='16' x2='20' y2='16'/><circle cx='9' cy='8' r='2.6'/><circle cx='15' cy='16' r='2.6'/>"@
    } else if name == "close"@ {
        "<line x1='6' y1='6' x2='18' y2='18'/><line x1='18' y1='6' x2='6' y2='18'/>"@
    } else if name == "check"@ {
        "<polyline points='4 12 10 18 20 6'/>"@
    } else if name == "alert"@ {
        "<path d='M12 3l9 16H3z'/><line x1='12' y1='9' x2='12' y2='14'/><circle cx='12' cy='17' r='0.7' fill='currentColor' stroke='none'/>"@
    } else if name == "record"@ {
        "<circle cx='12' cy='12' r='6' fill='currentColor' stroke='none'/>"@
    } else if name == "stop"@ {
        "<rect x='7' y='7' width='10' height='10' rx='2' fill='currentColor' stroke='none'/>"@
    } else if name == "mic"@ {
        "<rect x='9' y='3' width='6' height='11' rx='3'/><path d='M5 11a7 7 0 0 0 14 0'/><line x1='12' y1='18' x2='12' y2='21'/>"@
    } else if name == "mic-off"@ {
        "<path d='M15 9.3V6a3 3 0 0 0-5.7-1.3'/><path d='M9 9v2a3 3 0 0 0 4.6 2.5'/><path d='M5 11a7 7 0 0 0 11 5.3'/><line x1='12' y1='18' x2='12' y2='21'/><line x1='3' y1='3' x2='21' y2='21'/>"@
    } else if name == "speaker"@ {
        "<path d='M11 5L6 9H3v6h3l5 4z'/><path d='M15.5 8.5a5 5 0 0 1 0 7'/><path d='M18.5 5.5a9 9 0 0 1 0 13'/>"@
    } else if name == "speaker-off"@ {
        "<path d='M11 5L6 9H3v6h3l5 4z'/><line x1='22' y1='9' x2='16' y2='15'/><line x1='16' y1='9' x2='22' y2='15'/>"@
    } else if name == "play"@ {
        "<path d='M7 5v14l11-7z'/>"@
    } else if name == "pause"@ {
        "<rect x='6' y='5' width='4' height='14' rx='1' fill='currentColor' stroke='none'/><rect x='14' y='5' width='4' height='14' rx='1' fill='currentColor' stroke='none'/>"@
    } else if name == "waveform"@ {
        "<path d='M2 12h2'/><path d='M5 7v10'/><path d='M9 5v14'/><path d='M13 9v6'/><path d='M17 4v16'/><path d='M21 7v10'/>"@
    } else if name == "sparkles"@ {
        "<path d='M12 3l1.7 5.3a2 2 0 0 0 1.3 1.3L20.3 11l-5.3 1.7a2 2 0 0 0-1.3 1.3L12 19.3l-1.7-5.3a2 2 0 0 0-1.3-1.3L3.7 11l5.3-1.7a2 2 0 0 0 1.3-1.3z'/>"@
    } else if name == "archive"@ {
        "<rect x='3' y='4' width='18' height='4' rx='1'/><path d='M5 8v11a1 1 0 0 0 1 1h12a1 1 0 0 0 1-1V8'/><line x1='10' y1='12' x2='14' y2='12'/>"@
    } else if name == "users"@ {
        "<circle cx='9' cy='8' r='3.5'/><path d='M3 20v-1a5 5 0 0 1 5-5h2a5 5 0 0 1 5 5v1'/><path d='M16 5.5a3.5 3.5 0 0 1 0 6.8'/><path d='M21 20v-1a5 5 0 0 0-3.5-4.8'/>"@
    } else if name == "people"@ {
        "<circle cx='8' cy='8' r='3'/><path d='M2 20v-1a5 5 0 0 1 5-5h2a5 5 0 0 1 5 5v1'/><circle cx='16' cy='8' r='3'/><path d='M22 20v-1a5 5 0 0 0-4-4.9'/>"@
    } else if name == "refresh"@ {
        "<path d='M3 12a9 9 0 0 1 15-6.7L21 8'/><path d='M21 3v5h-5'/><path d='M21 12a9 9 0 0 1-15 6.7L3 16'/><path d='M3 21v-5h5'/>"@
    } else if name == "plus"@ {
        "<line x1='12' y1='5' x2='12' y2='19'/><line x1='5' y1='12' x2='19' y2='12'/>"@
    } else if name == "chat"@ {
        "<path d='M21 12a8 8 0 0 1-11.3 7.3L3 21l1.7-6.7A8 8 0 1 1 21 12z'/>"@
    } else if name == "headphones"@ {
        "<path d='M4 14v-1a8 8 0 0 1 16 0v1'/><rect x='2.5' y='13' width='4.5' height='7' rx='1.6'/><rect x='17' y='13' width='4.5' height='7' rx='1.6'/>"@
    } else if name == "copy"@ {
        "<rect x='9' y='9' width='11' height='11' rx='2'/><path d='M5 15H4a2 2 0 0 1-2-2V4a2 2 0 0 1 2-2h9a2 2 0 0 1 2 2v1'/>"@
    } else if name == "export"@ {
        "<path d='M12 3v12'/><path d='M7 11l5 4 5-4'/><path d='M4 21h16'/>"@
    } else if name == "download"@ {
        "<path d='M12 3v12'/><path d='M7 11l5 4 5-4'/><path d='M4 21h16'/>"@
    } else if name == "folder"@ {
        "<path d='M3 7a2 2 0 0 1 2-2h4l2 2h8a2 2 0 0 1 2 2v8a2 2 0 0 1-2 2H5a2 2 0 0 1-2-2z'/>"@
    } else if name == "file"@ {
        "<path d='M14 3H6a2 2 0 0 0-2 2v14a2 2 0 0 0 2 2h12a2 2 0 0 0 2-2V9z'/><path d='M14 3v6h6'/>"@
    } else if name == "file-text"@ {
        "<path d='M14 3H6a2 2 0 0 0-2 2v14a2 2 0 0 0 2 2h12a2 2 0 0 0 2-2V9z'/><path d='M14 3v6h6'/><line x1='8' y1='13' x2='16' y2='13'/><line x1='8' y1='17' x2='13' y2='17'/>"@
    } else if name == "database"@ {
        "<ellipse cx='12' cy='6' rx='8' ry='3'/><path d='M4 6v12c0 1.7 3.6 3 8 3s8-1.3 8-3V6'/><path d='M4 12c0 1.7 3.6 3 8 3s8-1.3 8-3'/>"@
    } else if name == "external"@ {
        "<path d='M14 4h6v6'/><path d='M20 4l-9 9'/><path d='M18 13v5a2 2 0 0 1-2 2H6a2 2 0 0 1-2-2V8a2 2 0 0 1 2-2h5'/>"@
    } else if name == "pen"@ {
        "<path d='M12 20h9'/><path d='M16.5 3.5a2.1 2.1 0 0 1 3 3L7 19l-4 1 1-4z'/>"@
    } else if name == "trash"@ {
        "<path d='M4 7h16'/><path d='M9 7V5a1 1 0 0 1 1-1h4a1 1 0 0 1 1 1v2'/><path d='M6 7l1 13a1 1 0 0 0 1 1h8a1 1 0 0 0 1-1l1-13'/><line x1='10' y1='11' x2='10' y2='17'/><line x1='14' y1='11' x2='14' y2='17'/>"@
    } else {
        "<circle cx='12' cy='12' r='8'/>"@
    }
}

/// The inner markup of an icon.
pub fn icon_paths(name: &str) -> (r: &'static str)
    ensures
        r@ == icon_markup(name@),
{
    if same(name, "overview") {
        "<line x1='6' y1='20' x2='6' y2='13'/><line x1='12' y1='20' x2='12' y2='8'/><line x1='18' y1='20' x2='18' y2='4'/>"
    } else if same(name, "search") {
        "<circle cx='11' cy='11' r='7'/><line x1='21' y1='21' x2='16.5' y2='16.5'/>"
    } else if same(name, "settings") {
        "<line x1='4' y1='8' x2='20' y2='8'/><line x1='4' y1='16' x2='20' y2='16'/><circle cx='9' cy='8' r='2.6'/><circle cx='15' cy='16' r='2.6'/>"
    } else if same(name, "close") {
        "<line x1='6' y1='6' x2='18' y2='18'/><line x1='18' y1='6' x2='6' y2='18'/>"
    } else if same(name, "check") {
        "<polyline points='4 12 10 18 20 6'/>"
    } else if same(name, "alert") {
        "<path d='M12 3l9 16H3z'/><line x1='12' y1='9' x2='12' y2='14'/><circle cx='12' cy='17' r='0.7' fill='currentColor' stroke='none'/>"
    } else if same(name, "record") {
        "<circle cx='12' cy='12' r='6' fill='currentColor' stroke='none'/>"
    } else if same(name, "stop") {
        "<rect x='7' y='7' width='10' height='10' rx='2' fill='currentColor' stroke='none'/>"
    } else if same(name, "mic") {
        "<rect x='9' y='3' width='6' height='11' rx='3'/><path d='M5 11a7 7 0 0 0 14 0'/><line x1='12' y1='18' x2='12' y2='21'/>"
    } else if same(name, "mic-off") {
        "<path d='M15 9.3V6a3 3 0 0 0-5.7-1.3'/><path d='M9 9v2a3 3 0 0 0 4.6 2.5'/><path d='M5 11a7 7 0 0 0 11 5.3'/><line x1='12' y1='18' x2='12' y2='21'/><line x1='3' y1='3' x2='21' y2='21'/>"
    } else if same(name, "speaker") {
        "<path d='M11 5L6 9H3v6h3l5 4z'/><path d='M15.5 8.5a5 5 0 0 1 0 7'/><path d='M18.5 5.5a9 9 0 0 1 0 13'/>"
    } else if same(name, "speaker-off") {
        "<path d='M11 5L6 9H3v6h3l5 4z'/><line x1='22' y1='9' x2='16' y2='15'/><line x1='16' y1='9' x2='22' y2='15'/>"
    } else if same(name, "play") {
        "<path d='M7 5v14l11-7z'/>"
    } else if same(name, "pause") {
        "<rect x='6' y='5' width='4' height='14' rx='1' fill='currentColor' stroke='none'/><rect x='14' y='5' width='4' height='14' rx='1' fill='currentColor' stroke='none'/>"
    } else if same(name, "waveform") {
        "<path d='M2 12h2'/><path d='M5 7v10'/><path d='M9 5v14'/><path d='M13 9v6'/><path d='M17 4v16'/><path d='M21 7v10'/>"
    } else if same(name, "sparkles") {
        "<path d='M12 3l1.7 5.3a2 2 0 0 0 1.3 1.3L20.3 11l-5.3 1.7a2 2 0 0 0-1.3 1.3L12 19.3l-1.7-5.3a2 2 0 0 0-1.3-1.3L3.7 11l5.3-1.7a2 2 0 0 0 1.3-1.3z'/>"
    } else if same(name, "archive") {
        "<rect x='3' y='4' width='18' height='4' rx='1'/><path d='M5 8v11a1 1 0 0 0 1 1h12a1 1 0 0 0 1-1V8'/><line x1='10' y1='12' x2='14' y2='12'/>"
    } else if same(name, "users") {
        "<circle cx='9' cy='8' r='3.5'/><path d='M3 20v-1a5 5 0 0 1 5-5h2a5 5 0 0 1 5 5v1'/><path d='M16 5.5a3.5 3.5 0 0 1 0 6.8'/><path d='M21 20v-1a5 5 0 0 0-3.5-4.8'/>"
    } else if same(name, "people") {
        "<circle cx='8' cy='8' r='3'/><path d='M2 20v-1a5 5 0 0 1 5-5h2a5 5 0 0 1 5 5v1'/><circle cx='16' cy='8' r='3'/><path d='M22 20v-1a5 5 0 0 0-4-4.9'/>"
    } else if same(name, "refresh") {
        "<path d='M3 12a9 9 0 0 1 15-6.7L21 8'/><path d='M21 3v5h-5'/><path d='M21 12a9 9 0 0 1-15 6.7L3 16'/><path d='M3 21v-5h5'/>"
    } else if same(name, "plus") {
        "<line x1='12' y1='5' x2='12' y2='19'/><line x1='5' y1='12' x2='19' y2='12'/>"
    } else if same(name, "chat") {
        "<path d='M21 12a8 8 0 0 1-11.3 7.3L3 21l1.7-6.7A8 8 0 1 1 21 12z'/>"
    } else if same(name, "headphones") {
        "<path d='M4 14v-1a8 8 0 0 1 16 0v1'/><rect x='2.5' y='13' width='4.5' height='7' rx='1.6'/><rect x='17' y='13' width='4.5' height='7' rx='1.6'/>"
    } else if same(name, "copy") {
        "<rect x='9' y='9' width='11' height='11' rx='2'/><path d='M5 15H4a2 2 0 0 1-2-2V4a2 2 0 0 1 2-2h9a2 2 0 0 1 2 2v1'/>"
    } else if same(name, "export") {
        "<path d='M12 3v12'/><path d='M7 11l5 4 5-4'/><path d='M4 21h16'/>"
    } else if same(name, "download") {
        "<path d='M12 3v12'/><path d='M7 11l5 4 5-4'/><path d='M4 21h16'/>"
    } else if same(name, "folder") {
        "<path d='M3 7a2 2 0 0 1 2-2h4l2 2h8a2 2 0 0 1 2 2v8a2 2 0 0 1-2 2H5a2 2 0 0 1-2-2z'/>"
    } else if same(name, "file") {
        "<path d='M14 3H6a2 2 0 0 0-2 2v14a2 2 0 0 0 2 2h12a2 2 0 0 0 2-2V9z'/><path d='M14 3v6h6'/>"
    } else if same(name, "file-text") {
        "<path d='M14 3H6a2 2 0 0 0-2 2v14a2 2 0 0 0 2 2h12a2 2 0 0 0 2-2V9z'/><path d='M14 3v6h6'/><line x1='8' y1='13' x2='16' y2='13'/><line x1='8' y1='17' x2='13' y2='17'/>"
    } else if same(name, "database") {
        "<ellipse cx='12' cy='6' rx='8' ry='3'/><path d='M4 6v12c0 1.7 3.6 3 8 3s8-1.3 8-3V6'/><path d='M4 12c0 1.7 3.6 3 8 3s8-1.3 8-3'/>"
    } else if same(name, "external") {
        "<path d='M14 4h6v6'/><path d='M20 4l-9 9'/><path d='M18 13v5a2 2 0 0 1-2 2H6a2 2 0 0 1-2-2V8a2 2 0 0 1 2-2h5'/>"
    } else if same(name, "pen") {
        "<path d='M12 20h9'/><path d='M16.5 3.5a2.1 2.1 0 0 1 3 3L7 19l-4 1 1-4z'/>"
    } else if same(name, "trash") {
        "<path d='M4 7h16'/><path d='M9 7V5a1 1 0 0 1 1-1h4a1 1 0 0 1 1 1v2'/><path d='M6 7l1 13a1 1 0 0 0 1 1h8a1 1 0 0 0 1-1l1-13'/><line x1='10' y1='11' x2='10' y2='17'/><line x1='14' y1='11' x2='14' y2='17'/>"
    } else {
        "<circle cx='12' cy='12' r='8'/>"
    }
}

/// The markup of an icon.
pub fn icon(name: &str) -> (r: String)
    ensures
        r@
            == "<svg viewBox='0 0 24 24' fill='none' stroke='currentColor' stroke-width='1.9' stroke-linecap='round' stroke-linejoin='round'>"@
            + icon_markup(name@) + "</svg>"@,
{
    let mut r =
        "<svg viewBox='0 0 24 24' fill='none' stroke='currentColor' stroke-width='1.9' stroke-linecap='round' stroke-linejoin='round'>".to_string();
    r.push_str(icon_paths(name));
    r.push_str("</svg>");
    r
}

} // verus!
