//! Image format recognition.
//!
//! Decoding image files is the surrounding application's job; the library
//! only knows which file extensions the supported formats use.

use vstd::prelude::*;

verus! {

/// The lowercase extensions of the supported image formats.
pub open spec fn spec_supported_extensions() -> Seq<Seq<char>> {
    seq!["png"@, "jpg"@, "jpeg"@, "gif"@, "bmp"@, "webp"@, "tiff"@, "tif"@]
}

/// Get supported image format extensions.
pub fn supported_extensions() -> (r: Vec<&'static str>)
    ensures
        r@.len() == spec_supported_extensions().len(),
        forall|i: int|
            0 <= i < r@.len() ==> #[trigger] r@[i]@ == spec_supported_extensions()[i],
{
    let mut v: Vec<&'static str> = Vec::new();
    v.push("png");
    v.push("jpg");
    v.push("jpeg");
    v.push("gif");
    v.push("bmp");
    v.push("webp");
    v.push("tiff");
    v.push("tif");
    proof {
        assert forall|i: int|
            0 <= i < v@.len() implies #[trigger] v@[i]@ == spec_supported_extensions()[i] by {
        }
    }
    v
}

/// The ASCII-lowercased form of a character.
pub open spec fn spec_ascii_lower(c: char) -> char {
    if 65 <= c as u32 <= 90 {
        ((c as u32 + 32) as u32) as char
    } else {
        c
    }
}

/// The start of a path's extension: the position after the last dot of its
/// final component, provided the dot neither opens the component nor is
/// missing.
pub open spec fn spec_ext_start(s: Seq<char>, i: int) -> Option<int>
    decreases i + 1,
{
    if i < 0 || i >= s.len() {
        Option::None
    } else if s[i] == '/' {
        Option::None
    } else if s[i] == '.' {
        if i == 0 || s[i - 1] == '/' {
            Option::None
        } else {
            Option::Some(i + 1)
        }
    } else {
        spec_ext_start(s, i - 1)
    }
}

/// The ASCII-lowercased extension of a path, if it has one.
pub open spec fn spec_extension_lower(s: Seq<char>) -> Option<Seq<char>> {
    match spec_ext_start(s, s.len() - 1) {
        Option::None => Option::None,
        Option::Some(start) => Option::Some(
            s.subrange(start, s.len() as int).map_values(|c: char| spec_ascii_lower(c)),
        ),
    }
}

/// Whether a path names a supported image format: its lowercased extension
/// is one of the supported ones.
pub open spec fn spec_is_supported_format(s: Seq<char>) -> bool {
    match spec_extension_lower(s) {
        Option::None => false,
        Option::Some(e) => spec_supported_extensions().contains(e),
    }
}

fn eq_lower_lit(ext: &Vec<char>, lit: &str) -> (r: bool)
    ensures
        r == (ext@ == lit@),
{
    let lcs = crate::text::chars_of(lit);
    let n = ext.len();
    if n != lcs.len() {
        return false;
    }
    let mut i: usize = 0;
    while i < n
        invariant
            i <= n,
            n == ext@.len(),
            lcs@ == lit@,
            lcs@.len() == n,
            forall|k: int| 0 <= k < i ==> ext@[k] == lit@[k],
        decreases n - i,
    {
        if ext[i] != lcs[i] {
            return false;
        }
        i = i + 1;
    }
    proof {
        assert(ext@ =~= lit@);
    }
    true
}

/// Check if a path's file extension is a supported image format.
pub fn is_supported_format(path: &str) -> (r: bool)
    ensures
        r == spec_is_supported_format(path@),
{
    let cs = crate::text::chars_of(path);
    let n = cs.len();
    let mut i: usize = n;
    let mut start: usize = 0;
    let mut found = false;
    while i > 0
        invariant_except_break
            i <= n,
            !found,
            spec_ext_start(path@, n as int - 1) == spec_ext_start(path@, i as int - 1),
        invariant
            cs@ == path@,
            n == path@.len(),
        ensures
            found ==> 0 < start <= n && spec_ext_start(path@, n as int - 1) == Option::Some(
                start as int,
            ),
            !found ==> spec_ext_start(path@, n as int - 1) is None,
        decreases i,
    {
        let c = cs[i - 1];
        if c == '/' {
            break ;
        }
        if c == '.' {
            if i == 1 || cs[i - 2] == '/' {
                break ;
            }
            start = i;
            found = true;
            break ;
        }
        i = i - 1;
    }
    if !found {
        return false;
    }
    let mut ext: Vec<char> = Vec::new();
    let mut j: usize = start;
    while j < n
        invariant
            start <= j <= n,
            cs@ == path@,
            n == path@.len(),
            ext@ == path@.subrange(start as int, j as int).map_values(
                |c: char| spec_ascii_lower(c),
            ),
        decreases n - j,
    {
        let c = cs[j];
        let u = c as u32;
        let lower: char = if 65 <= u && u <= 90 {
            proof {
                assert(u + 32 < 0xD800);
            }
            match char::from_u32(u + 32) {
                Some(l) => {
                    proof {
                        vstd::utf8::char_u32_cast(l, (u + 32) as u32);
                    }
                    l
                },
                None => c,
            }
        } else {
            c
        };
        ext.push(lower);
        proof {
            assert(ext@ =~= path@.subrange(start as int, j as int + 1).map_values(
                |c: char| spec_ascii_lower(c),
            ));
        }
        j = j + 1;
    }
    proof {
        assert(ext@ == spec_extension_lower(path@)->0);
    }
    let r = eq_lower_lit(&ext, "png") || eq_lower_lit(&ext, "jpg") || eq_lower_lit(&ext, "jpeg")
        || eq_lower_lit(&ext, "gif") || eq_lower_lit(&ext, "bmp") || eq_lower_lit(&ext, "webp")
        || eq_lower_lit(&ext, "tiff") || eq_lower_lit(&ext, "tif");
    proof {
        let e = spec_extension_lower(path@)->0;
        let exts = spec_supported_extensions();
        if r {
            assert(exts.contains(e)) by {
                if e == "png"@ {
                    assert(exts[0] == e);
                } else if e == "jpg"@ {
                    assert(exts[1] == e);
                } else if e == "jpeg"@ {
                    assert(exts[2] == e);
                } else if e == "gif"@ {
                    assert(exts[3] == e);
                } else if e == "bmp"@ {
                    assert(exts[4] == e);
                } else if e == "webp"@ {
                    assert(exts[5] == e);
                } else if e == "tiff"@ {
                    assert(exts[6] == e);
                } else {
                    assert(exts[7] == e);
                }
            }
        } else {
            assert(!exts.contains(e)) by {
                if exts.contains(e) {
                    let k = choose|k: int| 0 <= k < exts.len() && exts[k] == e;
                    assert(exts[0] == "png"@ && exts[1] == "jpg"@ && exts[2] == "jpeg"@ && exts[3]
                        == "gif"@ && exts[4] == "bmp"@ && exts[5] == "webp"@ && exts[6] == "tiff"@
                        && exts[7] == "tif"@);
                }
            }
        }
    }
    r
}

} // verus!
