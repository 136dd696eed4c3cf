//! Where a font with Chinese characters may be found.
use vstd::prelude::*;

use crate::proxy::Platform;
use crate::text;
use crate::text::views;

verus! {

/// The directory of Windows where the environment names none.
pub open spec fn windows_directory(windir: Option<Seq<char>>) -> Seq<char> {
    match windir {
        Some(d) => d,
        None => "C:\\Windows"@,
    }
}

/// The font files of Windows. Single fonts come before collections, which some versions of the
/// drawing library do not take.
pub open spec fn windows_fonts() -> Seq<Seq<char>> {
    seq![
        "simhei.ttf"@,
        "simfang.ttf"@,
        "simkai.ttf"@,
        "Deng.ttf"@,
        "Dengb.ttf"@,
        "msyh.ttc"@,
        "msyh.ttf"@,
        "msyhl.ttc"@,
        "simsun.ttc"@,
        "NotoSansSC-Regular.otf"@,
        "SourceHanSansSC-Regular.otf"@,
    ]
}

/// The font files of macOS.
pub open spec fn macos_fonts() -> Seq<Seq<char>> {
    seq![
        "/System/Library/Fonts/PingFang.ttc"@,
        "/System/Library/Fonts/STHeiti Light.ttc"@,
        "/System/Library/Fonts/Hiragino Sans GB.ttc"@,
        "/Library/Fonts/Arial Unicode.ttf"@,
    ]
}

/// The font files of Linux.
pub open spec fn linux_fonts() -> Seq<Seq<char>> {
    seq![
        "/usr/share/fonts/opentype/noto/NotoSansCJK-Regular.ttc"@,
        "/usr/share/fonts/truetype/noto/NotoSansCJK-Regular.ttc"@,
        "/usr/share/fonts/noto-cjk/NotoSansCJK-Regular.ttc"@,
        "/usr/share/fonts/truetype/wqy/wqy-microhei.ttc"@,
        "/usr/share/fonts/truetype/droid/DroidSansFallbackFull.ttf"@,
    ]
}

/// A font file in the font directory of Windows.
pub open spec fn windows_path(directory: Seq<char>, name: Seq<char>) -> Seq<char> {
    directory + "\\Fonts\\"@ + name
}

/// The files to try, best first.
pub open spec fn candidates(platform: Platform, windir: Option<Seq<char>>) -> Seq<Seq<char>> {
    match platform {
        Platform::Windows => windows_fonts().map_values(
            |name: Seq<char>| windows_path(windows_directory(windir), name),
        ),
        Platform::MacOs => macos_fonts(),
        Platform::Linux => linux_fonts(),
        Platform::Other => Seq::empty(),
    }
}

/// The files to try, best first. `windir` is the directory of Windows, where the environment
/// names one.
pub fn system_font_candidates(platform: Platform, windir: Option<&str>) -> (r: Vec<String>)
    ensures
        views(r@) == candidates(
            platform,
            match windir {
                Some(d) => Some(d@),
                None => None,
            },
        ),
{
    match platform {
        Platform::Windows => {
            let directory = match windir {
                Some(d) => d,
                None => "C:\\Windows",
            };
            let names: Vec<&'static str> = vec![
                "simhei.ttf",
                "simfang.ttf",
                "simkai.ttf",
                "Deng.ttf",
                "Dengb.ttf",
                "msyh.ttc",
                "msyh.ttf",
                "msyhl.ttc",
                "simsun.ttc",
                "NotoSansSC-Regular.otf",
                "SourceHanSansSC-Regular.otf",
            ];
            let start = text::join(directory, "\\Fonts\\");
            let mut out: Vec<String> = Vec::new();
            let mut i: usize = 0;
            while i < names.len()
                invariant
                    i <= names@.len(),
                    out@.len() == i,
                    start@ == directory@ + "\\Fonts\\"@,
                    forall|k: int|
                        0 <= k < i ==> (#[trigger] out@[k])@ == windows_path(
                            directory@,
                            names@[k]@,
                        ),
                decreases names@.len() - i,
            {
                out.push(text::join(start.as_str(), names[i]));
                i = i + 1;
            }
            proof {
                let all = candidates(
                    platform,
                    match windir {
                        Some(d) => Some(d@),
                        None => None,
                    },
                );
                assert(names@.map_values(|n: &'static str| n@) =~= windows_fonts());
                assert forall|k: int| 0 <= k < all.len() implies views(out@)[k] == all[k] by {
                    assert(names@.map_values(|n: &'static str| n@)[k] == windows_fonts()[k]);
                    assert(out@[k]@ == windows_path(directory@, names@[k]@));
                }
                assert(views(out@) =~= all);
            }
            out
        },
        Platform::MacOs => {
            let out: Vec<String> = vec![
                "/System/Library/Fonts/PingFang.ttc".to_owned(),
                "/System/Library/Fonts/STHeiti Light.ttc".to_owned(),
                "/System/Library/Fonts/Hiragino Sans GB.ttc".to_owned(),
                "/Library/Fonts/Arial Unicode.ttf".to_owned(),
            ];
            assert(views(out@) =~= macos_fonts());
            out
        },
        Platform::Linux => {
            let out: Vec<String> = vec![
                "/usr/share/fonts/opentype/noto/NotoSansCJK-Regular.ttc".to_owned(),
                "/usr/share/fonts/truetype/noto/NotoSansCJK-Regular.ttc".to_owned(),
                "/usr/share/fonts/noto-cjk/NotoSansCJK-Regular.ttc".to_owned(),
                "/usr/share/fonts/truetype/wqy/wqy-microhei.ttc".to_owned(),
                "/usr/share/fonts/truetype/droid/DroidSansFallbackFull.ttf".to_owned(),
            ];
            assert(views(out@) =~= linux_fonts());
            out
        },
        Platform::Other => {
            let out: Vec<String> = Vec::new();
            assert(views(out@) =~= Seq::<Seq<char>>::empty());
            out
        },
    }
}

/// What follows from reading a font file.
#[derive(Debug, Clone, Copy, PartialEq, Eq, Structural)]
pub enum FontStep {
    /// Use the file.
    Use,
    /// Try the file at this position.
    Try(usize),
    /// There is no font.
    GiveUp,
}

/// What follows from reading the file at a position.
pub open spec fn font_step(candidates: usize, position: usize, length: Option<usize>) -> FontStep {
    if length is Some && length->0 > 0 {
        FontStep::Use
    } else if position + 1 < candidates {
        FontStep::Try((position + 1) as usize)
    } else {
        FontStep::GiveUp
    }
}

/// What follows from reading the file at a position: it is used if it could be read and is not
/// empty; else the next one is tried, if there is one. `length` is how much could be read.
pub fn load_system_cjk_font(candidates: usize, position: usize, length: Option<usize>) -> (r:
    FontStep)
    requires
        position < candidates,
    ensures
        r == (if length is Some && length->0 > 0 {
            FontStep::Use
        } else if position + 1 < candidates {
            FontStep::Try((position + 1) as usize)
        } else {
            FontStep::GiveUp
        }),
        r == font_step(candidates, position, length),
{
    if let Some(n) = length {
        if n > 0 {
            return FontStep::Use;
        }
    }
    if position < candidates - 1 {
        FontStep::Try(position + 1)
    } else {
        FontStep::GiveUp
    }
}

// ----- laws -----

/// The position of the file that comes to be used, where the files from a position on read as
/// given; none, where none of them is used.
pub open spec fn font_found(lengths: Seq<Option<usize>>, position: usize) -> Option<usize>
    decreases lengths.len() - position,
{
    if position < lengths.len() && lengths.len() <= usize::MAX {
        match font_step(lengths.len() as usize, position, lengths[position as int]) {
            FontStep::Use => Some(position),
            FontStep::Try(next) => if next > position {
                font_found(lengths, next)
            } else {
                None
            },
            FontStep::GiveUp => None,
        }
    } else {
        None
    }
}

/// The files are tried in their order: the one that is used holds something, and none before it
/// does; where none is used, none holds anything.
pub proof fn law_first_file_that_holds_something_is_used(
    lengths: Seq<Option<usize>>,
    position: usize,
)
    requires
        position < lengths.len() <= usize::MAX,
    ensures
        font_found(lengths, position) matches Some(k) ==> {
            &&& position <= k < lengths.len()
            &&& lengths[k as int] is Some
            &&& lengths[k as int]->0 > 0
            &&& forall|i: int| position <= i < k && (#[trigger] lengths[i]) is Some ==> lengths[i]->0
                == 0
        },
        font_found(lengths, position) is None ==> forall|i: int|
            position <= i < lengths.len() && (#[trigger] lengths[i]) is Some ==> lengths[i]->0 == 0,
    decreases lengths.len() - position,
{
    if let FontStep::Try(next) = font_step(lengths.len() as usize, position, lengths[position as int]) {
        law_first_file_that_holds_something_is_used(lengths, next);
    }
}

/// On Windows every file stands in the font directory of the directory that the environment names,
/// or of `C:\\Windows`; which names they have does not depend on it.
pub proof fn law_windows_fonts_stand_in_one_directory(directory: Seq<char>, other: Seq<char>, i: int)
    requires
        0 <= i < candidates(Platform::Windows, Some(directory)).len(),
    ensures
        ({
            let all = candidates(Platform::Windows, Some(directory));
            let same = candidates(Platform::Windows, Some(other));
            &&& all.len() == same.len()
            &&& text::starts_with(all[i], directory + "\\Fonts\\"@)
            &&& all[i].len() > directory.len() + 7
            &&& all[i].skip(directory.len() + 7int) == same[i].skip(other.len() + 7int)
            &&& forall|k: int|
                directory.len() + 7 <= k < all[i].len() ==> (#[trigger] all[i][k]) != '\\'
            &&& candidates(Platform::Windows, None) == candidates(
                Platform::Windows,
                Some("C:\\Windows"@),
            )
        }),
{
    let all = candidates(Platform::Windows, Some(directory));
    let same = candidates(Platform::Windows, Some(other));
    let name = windows_fonts()[i];
    lemma_windows_names(i);
    reveal_strlit("\\Fonts\\");
    let start = directory + "\\Fonts\\"@;
    assert(all[i] == windows_path(directory, name));
    assert(same[i] == windows_path(other, name));
    assert(all[i].subrange(0, start.len() as int) =~= start);
    assert(all[i].skip(directory.len() + 7int) =~= name);
    assert(same[i].skip(other.len() + 7int) =~= name);
    assert forall|k: int| directory.len() + 7 <= k < all[i].len() implies (#[trigger] all[i][k])
        != '\\' by {
        assert(all[i][k] == name[k - (directory.len() + 7)]);
    }
}

/// Single fonts come before collections: the first files of Windows are single fonts.
pub proof fn law_single_fonts_come_first(directory: Seq<char>, i: int)
    requires
        0 <= i < 5,
    ensures
        candidates(Platform::Windows, Some(directory)).len() == 11,
        crate::keys::ends_with(candidates(Platform::Windows, Some(directory))[i], ".ttf"@),
{
    lemma_windows_names(i);
    let name = windows_fonts()[i];
    let path = candidates(Platform::Windows, Some(directory))[i];
    assert(path == windows_path(directory, name));
    reveal_strlit(".ttf");
    assert(path.skip(path.len() - 4) =~= name.skip(name.len() - 4));
}

proof fn lemma_windows_names(i: int)
    requires
        0 <= i < windows_fonts().len(),
    ensures
        windows_fonts()[i].len() > 4,
        forall|k: int| 0 <= k < windows_fonts()[i].len() ==> (#[trigger] windows_fonts()[i][k]) != '\\',
        i < 5 ==> windows_fonts()[i].skip(windows_fonts()[i].len() - 4) == ".ttf"@,
{
    reveal_strlit("simhei.ttf");
    reveal_strlit("simfang.ttf");
    reveal_strlit("simkai.ttf");
    reveal_strlit("Deng.ttf");
    reveal_strlit("Dengb.ttf");
    reveal_strlit("msyh.ttc");
    reveal_strlit("msyh.ttf");
    reveal_strlit("msyhl.ttc");
    reveal_strlit("simsun.ttc");
    reveal_strlit("NotoSansSC-Regular.otf");
    reveal_strlit("SourceHanSansSC-Regular.otf");
    reveal_strlit(".ttf");
    let name = windows_fonts()[i];
    if i < 5 {
        assert(name.skip(name.len() - 4) =~= ".ttf"@);
    }
}

/// Elsewhere the directory of Windows does not count; every file of Linux stands among the shared
/// fonts, every file of macOS in a font directory of the system, and other systems have none.
pub proof fn law_other_fonts_are_those_of_the_system(windir: Option<Seq<char>>, i: int)
    ensures
        0 <= i < candidates(Platform::Linux, windir).len() ==> text::starts_with(
            candidates(Platform::Linux, windir)[i],
            "/usr/share/fonts/"@,
        ),
        0 <= i < candidates(Platform::MacOs, windir).len() ==> text::contains(
            candidates(Platform::MacOs, windir)[i],
            "/Library/Fonts/"@,
        ),
        candidates(Platform::Linux, windir).len() == 5,
        candidates(Platform::MacOs, windir).len() == 4,
        candidates(Platform::Other, windir).len() == 0,
{
    reveal_strlit("/usr/share/fonts/");
    reveal_strlit("/Library/Fonts/");
    reveal_strlit("/System/Library/Fonts/PingFang.ttc");
    reveal_strlit("/System/Library/Fonts/STHeiti Light.ttc");
    reveal_strlit("/System/Library/Fonts/Hiragino Sans GB.ttc");
    reveal_strlit("/Library/Fonts/Arial Unicode.ttf");
    reveal_strlit("/usr/share/fonts/opentype/noto/NotoSansCJK-Regular.ttc");
    reveal_strlit("/usr/share/fonts/truetype/noto/NotoSansCJK-Regular.ttc");
    reveal_strlit("/usr/share/fonts/noto-cjk/NotoSansCJK-Regular.ttc");
    reveal_strlit("/usr/share/fonts/truetype/wqy/wqy-microhei.ttc");
    reveal_strlit("/usr/share/fonts/truetype/droid/DroidSansFallbackFull.ttf");
    let linux = linux_fonts();
    let macos = macos_fonts();
    if 0 <= i < 5 {
        assert(linux[i].subrange(0, 17) =~= "/usr/share/fonts/"@);
    }
    if 0 <= i < 4 {
        let k: int = if i < 3 {
            7
        } else {
            0
        };
        assert(macos[i].subrange(k, k + 15) =~= "/Library/Fonts/"@);
        assert(text::occurs_at(macos[i], "/Library/Fonts/"@, k));
    }
}

} // verus!
