//! Gitmoji codes (`:sparkles:`) turned into their emoji, matched without
//! regard to case, each followed by one space.

use vstd::prelude::*;
use crate::pattern::{regex_matches, regex_matches_of, regex_split, regex_split_of, vviews, weave, weave_exec};
use crate::text::{ascii_lower, chars_eq, chars_of, extend_chars, extend_str, join_seq, lit, lower_chars};

verus! {

/// The official gitmoji codes and their emoji, in the published order.
pub open spec fn gitmoji_table() -> Seq<(Seq<char>, Seq<char>)> {
    seq![
        (":art:"@, "🎨"@),
        (":zap:"@, "⚡️"@),
        (":fire:"@, "🔥"@),
        (":bug:"@, "🐛"@),
        (":ambulance:"@, "🚑️"@),
        (":sparkles:"@, "✨"@),
        (":memo:"@, "📝"@),
        (":rocket:"@, "🚀"@),
        (":lipstick:"@, "💄"@),
        (":tada:"@, "🎉"@),
        (":white_check_mark:"@, "✅"@),
        (":lock:"@, "🔒️"@),
        (":closed_lock_with_key:"@, "🔐"@),
        (":bookmark:"@, "🔖"@),
        (":rotating_light:"@, "🚨"@),
        (":construction:"@, "🚧"@),
        (":green_heart:"@, "💚"@),
        (":arrow_down:"@, "⬇️"@),
        (":arrow_up:"@, "⬆️"@),
        (":pushpin:"@, "📌"@),
        (":construction_worker:"@, "👷"@),
        (":chart_with_upwards_trend:"@, "📈"@),
        (":recycle:"@, "♻️"@),
        (":heavy_plus_sign:"@, "➕"@),
        (":heavy_minus_sign:"@, "➖"@),
        (":wrench:"@, "🔧"@),
        (":hammer:"@, "🔨"@),
        (":globe_with_meridians:"@, "🌐"@),
        (":pencil2:"@, "✏️"@),
        (":pencil:"@, "✏️"@),
        (":poop:"@, "💩"@),
        (":rewind:"@, "⏪️"@),
        (":twisted_rightwards_arrows:"@, "🔀"@),
        (":package:"@, "📦️"@),
        (":alien:"@, "👽️"@),
        (":truck:"@, "🚚"@),
        (":page_facing_up:"@, "📄"@),
        (":boom:"@, "💥"@),
        (":bento:"@, "🍱"@),
        (":wheelchair:"@, "♿️"@),
        (":bulb:"@, "💡"@),
        (":beers:"@, "🍻"@),
        (":speech_balloon:"@, "💬"@),
        (":card_file_box:"@, "🗃️"@),
        (":loud_sound:"@, "🔊"@),
        (":mute:"@, "🔇"@),
        (":busts_in_silhouette:"@, "👥"@),
        (":children_crossing:"@, "🚸"@),
        (":building_construction:"@, "🏗️"@),
        (":iphone:"@, "📱"@),
        (":clown_face:"@, "🤡"@),
        (":egg:"@, "🥚"@),
        (":see_no_evil:"@, "🙈"@),
        (":camera_flash:"@, "📸"@),
        (":alembic:"@, "⚗️"@),
        (":mag:"@, "🔍️"@),
        (":label:"@, "🏷️"@),
        (":seedling:"@, "🌱"@),
        (":triangular_flag_on_post:"@, "🚩"@),
        (":goal_net:"@, "🥅"@),
        (":dizzy:"@, "💫"@),
        (":wastebasket:"@, "🗑️"@),
        (":passport_control:"@, "🛂"@),
        (":adhesive_bandage:"@, "🩹"@),
        (":monocle_face:"@, "🧐"@),
        (":coffin:"@, "⚰️"@),
        (":test_tube:"@, "🧪"@),
        (":necktie:"@, "👔"@),
        (":stethoscope:"@, "🩺"@),
        (":bricks:"@, "🧱"@),
        (":technologist:"@, "🧑‍💻"@),
        (":money_with_wings:"@, "💸"@),
        (":thread:"@, "🧵"@),
        (":safety_vest:"@, "🦺"@),
    ]
}

pub open spec fn table_view(t: Seq<(&str, &str)>) -> Seq<(Seq<char>, Seq<char>)> {
    t.map_values(|p: (&str, &str)| (p.0@, p.1@))
}

fn table() -> (t: Vec<(&'static str, &'static str)>)
    ensures
        table_view(t@) == gitmoji_table(),
{
    let t = vec![
            (":art:", "🎨"),
            (":zap:", "⚡️"),
            (":fire:", "🔥"),
            (":bug:", "🐛"),
            (":ambulance:", "🚑️"),
            (":sparkles:", "✨"),
            (":memo:", "📝"),
            (":rocket:", "🚀"),
            (":lipstick:", "💄"),
            (":tada:", "🎉"),
            (":white_check_mark:", "✅"),
            (":lock:", "🔒️"),
            (":closed_lock_with_key:", "🔐"),
            (":bookmark:", "🔖"),
            (":rotating_light:", "🚨"),
            (":construction:", "🚧"),
            (":green_heart:", "💚"),
            (":arrow_down:", "⬇️"),
            (":arrow_up:", "⬆️"),
            (":pushpin:", "📌"),
            (":construction_worker:", "👷"),
            (":chart_with_upwards_trend:", "📈"),
            (":recycle:", "♻️"),
            (":heavy_plus_sign:", "➕"),
            (":heavy_minus_sign:", "➖"),
            (":wrench:", "🔧"),
            (":hammer:", "🔨"),
            (":globe_with_meridians:", "🌐"),
            (":pencil2:", "✏️"),
            (":pencil:", "✏️"),
            (":poop:", "💩"),
            (":rewind:", "⏪️"),
            (":twisted_rightwards_arrows:", "🔀"),
            (":package:", "📦️"),
            (":alien:", "👽️"),
            (":truck:", "🚚"),
            (":page_facing_up:", "📄"),
            (":boom:", "💥"),
            (":bento:", "🍱"),
            (":wheelchair:", "♿️"),
            (":bulb:", "💡"),
            (":beers:", "🍻"),
            (":speech_balloon:", "💬"),
            (":card_file_box:", "🗃️"),
            (":loud_sound:", "🔊"),
            (":mute:", "🔇"),
            (":busts_in_silhouette:", "👥"),
            (":children_crossing:", "🚸"),
            (":building_construction:", "🏗️"),
            (":iphone:", "📱"),
            (":clown_face:", "🤡"),
            (":egg:", "🥚"),
            (":see_no_evil:", "🙈"),
            (":camera_flash:", "📸"),
            (":alembic:", "⚗️"),
            (":mag:", "🔍️"),
            (":label:", "🏷️"),
            (":seedling:", "🌱"),
            (":triangular_flag_on_post:", "🚩"),
            (":goal_net:", "🥅"),
            (":dizzy:", "💫"),
            (":wastebasket:", "🗑️"),
            (":passport_control:", "🛂"),
            (":adhesive_bandage:", "🩹"),
            (":monocle_face:", "🧐"),
            (":coffin:", "⚰️"),
            (":test_tube:", "🧪"),
            (":necktie:", "👔"),
            (":stethoscope:", "🩺"),
            (":bricks:", "🧱"),
            (":technologist:", "🧑‍💻"),
            (":money_with_wings:", "💸"),
            (":thread:", "🧵"),
            (":safety_vest:", "🦺"),
    ];
    assert(table_view(t@) =~= gitmoji_table());
    t
}

/// The emoji of the first code equal to `code`.
pub open spec fn lookup(t: Seq<(Seq<char>, Seq<char>)>, code: Seq<char>) -> Option<Seq<char>>
    decreases t.len(),
{
    if t.len() == 0 {
        None
    } else if t[0].0 == code {
        Some(t[0].1)
    } else {
        lookup(t.drop_first(), code)
    }
}

/// The pattern: every code, as an alternative, case-insensitive.
pub open spec fn gitmoji_pattern() -> Seq<char> {
    "(?i)"@ + join_seq(gitmoji_table().map_values(|p: (Seq<char>, Seq<char>)| p.0), "|"@)
}

/// What a match becomes: its emoji and a space (the code looked up in lower
/// case); a match the table does not know is kept.
pub open spec fn emoji_for(hit: Seq<char>) -> Seq<char> {
    match lookup(gitmoji_table(), ascii_lower(hit)) {
        Some(e) => e + " "@,
        None => hit,
    }
}

/// The text with every match of the pattern replaced.
pub open spec fn convert_gitmoji_spec(content: Seq<char>) -> Seq<char> {
    match (regex_split_of(gitmoji_pattern(), content), regex_matches_of(gitmoji_pattern(), content)) {
        (Some(gaps), Some(hits)) => weave(gaps, hits.map_values(|h: Seq<char>| emoji_for(h))),
        _ => content,
    }
}

fn pattern_exec(t: &Vec<(&'static str, &'static str)>) -> (p: Vec<char>)
    requires
        table_view(t@) == gitmoji_table(),
    ensures
        p@ == gitmoji_pattern(),
{
    let ghost keys = gitmoji_table().map_values(|p: (Seq<char>, Seq<char>)| p.0);
    let mut body: Vec<char> = Vec::new();
    let mut i: usize = 0;
    while i < t.len()
        invariant
            i <= t@.len(),
            table_view(t@) == gitmoji_table(),
            keys.len() == t@.len(),
            keys == gitmoji_table().map_values(|p: (Seq<char>, Seq<char>)| p.0),
            body@ == join_seq(keys.subrange(0, i as int), "|"@),
        decreases t.len() - i,
    {
        assert(keys.subrange(0, i + 1).drop_last() =~= keys.subrange(0, i as int));
        assert(keys[i as int] == t@[i as int].0@);
        if i > 0 {
            extend_str(&mut body, "|");
        }
        extend_str(&mut body, t[i].0);
        proof {
            if i == 0 {
                assert(body@ =~= keys.subrange(0, 1)[0]);
            }
        }
        i = i + 1;
    }
    assert(keys.subrange(0, t@.len() as int) =~= keys);
    let mut p = lit("(?i)");
    extend_chars(&mut p, &body);
    p
}

fn lookup_exec(t: &Vec<(&'static str, &'static str)>, code: &Vec<char>) -> (r: Option<&'static str>)
    ensures
        match lookup(table_view(t@), code@) {
            Some(e) => r is Some && r->0@ == e,
            None => r is None,
        },
{
    let mut i: usize = 0;
    assert(table_view(t@).subrange(0, t@.len() as int) =~= table_view(t@));
    while i < t.len()
        invariant
            i <= t@.len(),
            lookup(table_view(t@), code@) == lookup(table_view(t@).subrange(i as int, t@.len() as int), code@),
        decreases t.len() - i,
    {
        let ghost rest = table_view(t@).subrange(i as int, t@.len() as int);
        assert(rest.drop_first() =~= table_view(t@).subrange(i + 1, t@.len() as int));
        assert(rest[0] == (t@[i as int].0@, t@[i as int].1@));
        if chars_eq(&chars_of(t[i].0), code) {
            return Some(t[i].1);
        }
        i = i + 1;
    }
    None
}

/// `:code:` (any case) replaced by its emoji and a space.
pub fn convert_gitmoji(content: &str) -> (r: String)
    ensures
        r@ == convert_gitmoji_spec(content@),
{
    let t = table();
    let pat = crate::text::string_of(&pattern_exec(&t));
    let gaps = regex_split(pat.as_str(), content);
    let hits = regex_matches(pat.as_str(), content);
    match (gaps, hits) {
        (Some(gaps), Some(hits)) => {
            let mut gv: Vec<Vec<char>> = Vec::new();
            let mut i: usize = 0;
            while i < gaps.len()
                invariant
                    i <= gaps@.len(),
                    vviews(gv@) == crate::cli::parse::texts(gaps@.subrange(0, i as int)),
                decreases gaps.len() - i,
            {
                gv.push(chars_of(gaps[i].as_str()));
                assert(crate::cli::parse::texts(gaps@.subrange(0, i + 1)) =~= crate::cli::parse::texts(gaps@.subrange(0, i as int)).push(gaps@[i as int]@));
                assert(vviews(gv@) =~= crate::cli::parse::texts(gaps@.subrange(0, i + 1)));
                i = i + 1;
            }
            assert(gaps@.subrange(0, gaps@.len() as int) =~= gaps@);
            let ghost hv = crate::cli::parse::texts(hits@);
            let mut rv: Vec<Vec<char>> = Vec::new();
            let mut j: usize = 0;
            while j < hits.len()
                invariant
                    j <= hits@.len(),
                    hv == crate::cli::parse::texts(hits@),
                    table_view(t@) == gitmoji_table(),
                    vviews(rv@) == hv.subrange(0, j as int).map_values(|h: Seq<char>| emoji_for(h)),
                decreases hits.len() - j,
            {
                let h = chars_of(hits[j].as_str());
                let low = lower_chars(&h);
                let piece = match lookup_exec(&t, &low) {
                    Some(e) => {
                        let mut x = chars_of(e);
                        extend_str(&mut x, " ");
                        x
                    },
                    None => h,
                };
                assert(hv[j as int] == hits@[j as int]@);
                assert(piece@ == emoji_for(hv[j as int]));
                let ghost before = vviews(rv@);
                rv.push(piece);
                assert(vviews(rv@) =~= before.push(emoji_for(hv[j as int])));
                assert(hv.subrange(0, j + 1).map_values(|h: Seq<char>| emoji_for(h)) =~= hv.subrange(0, j as int).map_values(|h: Seq<char>| emoji_for(h)).push(emoji_for(hv[j as int])));
                assert(vviews(rv@) =~= hv.subrange(0, j + 1).map_values(|h: Seq<char>| emoji_for(h)));
                j = j + 1;
            }
            assert(hv.subrange(0, hv.len() as int) =~= hv);
            crate::text::string_of(&weave_exec(&gv, &rv))
        },
        _ => crate::text::owned(content),
    }
}

} // verus!
