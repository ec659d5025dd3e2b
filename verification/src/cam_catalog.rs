//! The catalogue of CAM tools on the tools dashboard, and the search and
//! category filter that decides which of them the dashboard lists.

use vstd::prelude::*;
use crate::text::{contains_seq, lowercase, trim};

verus! {

/// A CAM tool on the dashboard
#[derive(Debug, Clone, Copy)]
pub struct CamTool {
    /// Page of the tool's panel
    pub page: &'static str,
    /// Title shown in the list
    pub title: &'static str,
    /// One-line description
    pub desc: &'static str,
    /// Icon name
    pub icon: &'static str,
    /// Category: generators, engraving, calculators or maintenance
    pub category: &'static str,
}

/// A tool as (page, title, description, icon, category) texts.
pub open spec fn tool_view(t: CamTool) -> (Seq<char>, Seq<char>, Seq<char>, Seq<char>, Seq<char>) {
    (t.page@, t.title@, t.desc@, t.icon@, t.category@)
}

/// The dashboard's tools, in the order they are listed.
pub open spec fn tool_table() -> Seq<(Seq<char>, Seq<char>, Seq<char>, Seq<char>, Seq<char>)> {
    seq![
        ("tabbed_box"@, "Tabbed Box Maker"@, "Generate G-code for laser/CNC cut boxes with finger joints"@,
            "object-select-symbolic"@, "generators"@),
        ("jigsaw"@, "Jigsaw Puzzle Generator"@, "Create custom jigsaw puzzle patterns from images"@,
            "image-x-generic-symbolic"@, "generators"@),
        ("laser_image"@, "Laser Image Engraver"@, "Convert raster images to G-code for laser engraving"@,
            "camera-photo-symbolic"@, "engraving"@),
        ("laser_vector"@, "Laser Vector Engraver"@, "Convert SVG and DXF vector files to G-code"@,
            "insert-image-symbolic"@, "engraving"@),
        ("feeds"@, "Speeds and Feeds Calculator"@, "Calculate cutting speeds and feeds for your materials"@,
            "accessories-calculator-symbolic"@, "calculators"@),
        ("surfacing"@, "Spoilboard Surfacing"@, "Generate surfacing toolpaths to flatten your spoilboard"@,
            "view-refresh-symbolic"@, "maintenance"@),
        ("grid"@, "Create Spoilboard Grid"@, "Generate grid patterns for spoilboard alignment"@,
            "view-grid-symbolic"@, "maintenance"@),
        ("gerber"@, "Gerber to G-Code"@, "Convert Gerber files to G-Code for PCB milling"@,
            "media-floppy-symbolic"@, "generators"@),
        ("drill_press"@, "Drill Press"@, "Emulate a drill press with peck drilling and helical cycles"@,
            "input-mouse-symbolic"@, "generators"@),
    ]
}

/// The dashboard's tools.
pub fn cam_tools() -> (v: Vec<CamTool>)
    ensures
        v@.map_values(|t: CamTool| tool_view(t)) == tool_table(),
{
    let v = vec![
        CamTool {
            page: "tabbed_box",
            title: "Tabbed Box Maker",
            desc: "Generate G-code for laser/CNC cut boxes with finger joints",
            icon: "object-select-symbolic",
            category: "generators",
        },
        CamTool {
            page: "jigsaw",
            title: "Jigsaw Puzzle Generator",
            desc: "Create custom jigsaw puzzle patterns from images",
            icon: "image-x-generic-symbolic",
            category: "generators",
        },
        CamTool {
            page: "laser_image",
            title: "Laser Image Engraver",
            desc: "Convert raster images to G-code for laser engraving",
            icon: "camera-photo-symbolic",
            category: "engraving",
        },
        CamTool {
            page: "laser_vector",
            title: "Laser Vector Engraver",
            desc: "Convert SVG and DXF vector files to G-code",
            icon: "insert-image-symbolic",
            category: "engraving",
        },
        CamTool {
            page: "feeds",
            title: "Speeds and Feeds Calculator",
            desc: "Calculate cutting speeds and feeds for your materials",
            icon: "accessories-calculator-symbolic",
            category: "calculators",
        },
        CamTool {
            page: "surfacing",
            title: "Spoilboard Surfacing",
            desc: "Generate surfacing toolpaths to flatten your spoilboard",
            icon: "view-refresh-symbolic",
            category: "maintenance",
        },
        CamTool {
            page: "grid",
            title: "Create Spoilboard Grid",
            desc: "Generate grid patterns for spoilboard alignment",
            icon: "view-grid-symbolic",
            category: "maintenance",
        },
        CamTool {
            page: "gerber",
            title: "Gerber to G-Code",
            desc: "Convert Gerber files to G-Code for PCB milling",
            icon: "media-floppy-symbolic",
            category: "generators",
        },
        CamTool {
            page: "drill_press",
            title: "Drill Press",
            desc: "Emulate a drill press with peck drilling and helical cycles",
            icon: "input-mouse-symbolic",
            category: "generators",
        },
    ];
    assert(v@.map_values(|t: CamTool| tool_view(t)) =~= tool_table());
    v
}

/// A tool is listed when the search text, trimmed and lower-cased, is empty
/// or occurs in its lower-cased title or description, and the category is
/// "all" or the tool's own.
pub open spec fn tool_shown(t: CamTool, query: Seq<char>, category: Seq<char>) -> bool {
    let q = lowercase(trim(query));
    &&& (q.len() == 0 || contains_seq(lowercase(t.title@), q) || contains_seq(lowercase(t.desc@), q))
    &&& (category == "all"@ || t.category@ == category)
}

/// Whether `text`, lower-cased, contains the characters `q`.
fn lower_contains(text: &str, q: &Vec<char>) -> (b: bool)
    ensures
        b == contains_seq(lowercase(text@), q@),
{
    let l = crate::text::to_lowercase(text);
    let lc = crate::text::chars_of(l.as_str());
    crate::text::contains_chars(&lc, q)
}

/// Which of the tools the dashboard lists for a search text and a category
/// ("all" for every category), one flag per tool.
pub fn apply_filters(tools: &Vec<CamTool>, query: &str, category: &str) -> (shown: Vec<bool>)
    ensures
        shown@.len() == tools@.len(),
        forall|i: int| 0 <= i < tools@.len() ==> shown@[i] == tool_shown(#[trigger] tools@[i], query@, category@),
{
    let trimmed = crate::text::trim_text(query);
    let ql = crate::text::to_lowercase(trimmed.as_str());
    let q = crate::text::chars_of(ql.as_str());
    let cat = crate::text::chars_of(category);
    let all = crate::text::chars_of("all");
    let any_category = crate::text::chars_equal(&cat, &all);
    let mut shown: Vec<bool> = Vec::new();
    let mut i: usize = 0;
    while i < tools.len()
        invariant
            i <= tools@.len(),
            q@ == lowercase(trim(query@)),
            cat@ == category@,
            any_category == (category@ == "all"@),
            shown@.len() == i,
            forall|k: int| 0 <= k < i ==> shown@[k] == tool_shown(#[trigger] tools@[k], query@, category@),
        decreases tools@.len() - i,
    {
        let t = &tools[i];
        let text_ok = q.len() == 0 || lower_contains(t.title, &q) || lower_contains(t.desc, &q);
        let own = crate::text::chars_of(t.category);
        let cat_ok = any_category || crate::text::chars_equal(&own, &cat);
        shown.push(text_ok && cat_ok);
        i = i + 1;
    }
    shown
}

/// With no search text and the category "all" every tool is listed; with
/// any other category only tools of that category are.
pub proof fn law_filter_by_category(t: CamTool, query: Seq<char>, category: Seq<char>)
    ensures
        lowercase(trim(query)).len() == 0 && category == "all"@ ==> tool_shown(t, query, category),
        tool_shown(t, query, category) && category != "all"@ ==> t.category@ == category,
{
}

} // verus!
