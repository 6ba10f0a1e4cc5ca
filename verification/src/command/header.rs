//! The header of a Kotlin source file: its package and its imports, which
//! order the files for compilation.
use vstd::prelude::*;

use crate::text::{
    concat, is_prefix_of, owned, pad_right, pad_right_spec, replace, replace_after_last, replace_after_last_spec, replace_spec, split,
    split_spec, starts_with, str_eq, views,
};

verus! {

/// A line without a carriage return that ended it before a line feed.
pub open spec fn strip_cr(l: Seq<char>) -> Seq<char> {
    if l.len() > 0 && l.last() == '\r' {
        l.drop_last()
    } else {
        l
    }
}

/// The lines of a text (`str::lines`): split at line feeds, a carriage
/// return before a line feed dropped, and no empty line after a final line
/// feed.
pub open spec fn lines_spec(s: Seq<char>) -> Seq<Seq<char>> {
    let parts = split_spec(s, "\n"@);
    let ended = parts.drop_last().map_values(|l: Seq<char>| strip_cr(l)).push(parts.last());
    if parts.last().len() == 0 {
        ended.drop_last()
    } else {
        ended
    }
}

/// The lines of a text (`str::lines`).
pub fn lines(s: &str) -> (res: Vec<String>)
    ensures
        views(res@) == lines_spec(s@),
{
    proof {
        reveal_strlit("\n");
    }
    let parts = split(s, "\n");
    let ghost pv = views(parts@);
    proof {
        lemma_split_nonempty(s@, "\n"@, Seq::empty());
    }
    let mut res: Vec<String> = Vec::new();
    let mut i: usize = 0;
    while i < parts.len() - 1
        invariant
            pv == views(parts@),
            pv.len() >= 1,
            i + 1 <= parts@.len(),
            views(res@) == pv.take(i as int).map_values(|l: Seq<char>| strip_cr(l)),
        decreases parts@.len() - i,
    {
        let p = &parts[i];
        let chars = crate::text::chars_of(p.as_str());
        let line = if chars.len() > 0 && chars[chars.len() - 1] == '\r' {
            crate::text::string_of_range(chars.as_slice(), 0, chars.len() - 1)
        } else {
            p.clone()
        };
        proof {
            assert(pv[i as int] == p@);
            if chars@.len() > 0 && chars@.last() == '\r' {
                assert(line@ =~= p@.drop_last());
            }
        }
        let ghost before = views(res@);
        res.push(line);
        i = i + 1;
        proof {
            assert(views(res@) =~= before.push(line@));
            assert(pv.take(i as int).map_values(|l: Seq<char>| strip_cr(l)) =~= pv.take(i - 1).map_values(
                |l: Seq<char>| strip_cr(l),
            ).push(strip_cr(pv[i - 1])));
        }
    }
    let last = &parts[i];
    proof {
        assert(pv.take(i as int) =~= pv.drop_last());
        assert(pv.last() == last@);
    }
    if last.as_str().is_empty() {
        proof {
            let ended = pv.drop_last().map_values(|l: Seq<char>| strip_cr(l)).push(pv.last());
            assert(ended.drop_last() =~= views(res@));
        }
        res
    } else {
        let ghost before = views(res@);
        res.push(last.clone());
        proof {
            assert(views(res@) =~= before.push(last@));
        }
        res
    }
}

/// Splitting yields at least one piece.
proof fn lemma_split_nonempty(s: Seq<char>, sep: Seq<char>, cur: Seq<char>)
    ensures
        crate::text::split_acc(s, sep, cur).len() >= 1,
    decreases s.len(),
{
    if s.len() > 0 {
        if sep.len() > 0 && is_prefix_of(sep, s) {
            lemma_split_nonempty(s.skip(sep.len() as int), sep, Seq::empty());
        } else {
            lemma_split_nonempty(s.skip(1), sep, cur.push(s[0]));
        }
    }
}

/// The package a `package` line declares: the line without `package `,
/// up to its last dot.
pub open spec fn declared_package(l: Seq<char>) -> Seq<char> {
    replace_after_last_spec(replace_spec(l, "package "@, Seq::empty()), "."@)
}

/// The package an `import` line imports from: the line without `import `,
/// up to its last dot.
pub open spec fn imported_package(l: Seq<char>) -> Seq<char> {
    replace_after_last_spec(replace_spec(l, "import "@, Seq::empty()), "."@)
}

/// The header the lines begin with: the last `package` line and every
/// `import` line, read until the first line that is neither these nor empty.
pub open spec fn scan_header(ls: Seq<Seq<char>>, package: Seq<char>, imports: Seq<Seq<char>>) -> (
    Seq<char>,
    Seq<Seq<char>>,
)
    decreases ls.len(),
{
    if ls.len() == 0 {
        (package, imports)
    } else if is_prefix_of("package "@, ls[0]) {
        scan_header(ls.skip(1), declared_package(ls[0]), imports)
    } else if is_prefix_of("import "@, ls[0]) {
        scan_header(ls.skip(1), package, imports.push(imported_package(ls[0])))
    } else if ls[0].len() == 0 {
        scan_header(ls.skip(1), package, imports)
    } else {
        (package, imports)
    }
}

/// The header of a Kotlin source file: the file, its package and what it
/// imports.
#[derive(Clone, Debug)]
pub struct HeaderKt {
    pub file: String,
    pub package: String,
    pub imports: Vec<String>,
}

impl HeaderKt {
    /// The header of the file `file` whose text is `content`.
    pub fn parse(file: &str, content: &str) -> (res: HeaderKt)
        ensures
            res.file@ == file@,
            (res.package@, views(res.imports@)) == scan_header(
                lines_spec(content@),
                Seq::empty(),
                Seq::empty(),
            ),
    {
        proof {
            reveal_strlit(".");
        }
        let ls = lines(content);
        let ghost lv = views(ls@);
        let mut package = String::new();
        let mut imports: Vec<String> = Vec::new();
        let mut i: usize = 0;
        let mut done = false;
        proof {
            assert(lv.skip(0) =~= lv);
            assert(views(imports@) =~= Seq::<Seq<char>>::empty());
        }
        while i < ls.len() && !done
            invariant
                lv == views(ls@),
                lv == lines_spec(content@),
                i <= ls@.len(),
                !done ==> scan_header(lv, Seq::empty(), Seq::empty()) == scan_header(
                    lv.skip(i as int),
                    package@,
                    views(imports@),
                ),
                done ==> scan_header(lv, Seq::empty(), Seq::empty()) == (package@, views(imports@)),
            decreases ls@.len() - i,
        {
            proof {
                reveal_strlit("package ");
                reveal_strlit("import ");
                reveal_strlit(".");
                reveal_strlit("");
                assert(""@ =~= Seq::<char>::empty());
            }
            let line = &ls[i];
            proof {
                assert(lv.skip(i as int)[0] == line@);
                assert(lv.skip(i as int).skip(1) =~= lv.skip(i + 1));
            }
            if starts_with(line.as_str(), "package ") {
                let a = replace(line.as_str(), "package ", "");
                package = replace_after_last(a.as_str(), ".");
            } else if starts_with(line.as_str(), "import ") {
                let a = replace(line.as_str(), "import ", "");
                let imported = replace_after_last(a.as_str(), ".");
                let ghost before = views(imports@);
                imports.push(imported);
                proof {
                    assert(views(imports@) =~= before.push(imported@));
                }
            } else if line.as_str().is_empty() {
            } else {
                done = true;
            }
            i = i + 1;
        }
        proof {
            if !done {
                assert(lv.skip(i as int) =~= Seq::<Seq<char>>::empty());
            }
        }
        HeaderKt { file: owned(file), package, imports }
    }

    /// The line that shows the header: the package, or
    /// the file when it has none, padded to 20 characters and followed by a
    /// bar, then each import followed by a comma and a space.
    pub fn display(&self) -> (res: String)
        ensures
            res@ == pad_right_spec(
                if self.package@.len() == 0 {
                    self.file@
                } else {
                    self.package@
                },
                20,
            ) + " | "@ + imports_text(views(self.imports@)),
    {
        let first = if self.package.as_str().is_empty() {
            pad_right(self.file.as_str(), 20)
        } else {
            pad_right(self.package.as_str(), 20)
        };
        let mut res = concat(first.as_str(), " | ");
        let ghost start = res@;
        let mut i: usize = 0;
        while i < self.imports.len()
            invariant
                i <= self.imports@.len(),
                res@ == start + imports_text(views(self.imports@).take(i as int)),
            decreases self.imports@.len() - i,
        {
            proof {
                assert(views(self.imports@).take(i + 1).drop_last() =~= views(self.imports@).take(i as int));
                assert(views(self.imports@).take(i + 1).last() == self.imports@[i as int]@);
            }
            let a = concat(res.as_str(), self.imports[i].as_str());
            res = concat(a.as_str(), ", ");
            i = i + 1;
        }
        proof {
            assert(views(self.imports@).take(i as int) =~= views(self.imports@));
        }
        res
    }

    /// Whether this file imports from the package of `other`.
    pub fn has_dependency(&self, other: &HeaderKt) -> (res: bool)
        ensures
            res == views(self.imports@).contains(other.package@),
    {
        let mut i: usize = 0;
        while i < self.imports.len()
            invariant
                i <= self.imports@.len(),
                forall|k: int| 0 <= k < i ==> views(self.imports@)[k] != other.package@,
            decreases self.imports@.len() - i,
        {
            if str_eq(self.imports[i].as_str(), other.package.as_str()) {
                assert(views(self.imports@)[i as int] == other.package@);
                return true;
            }
            i = i + 1;
        }
        false
    }
}

/// Each import followed by a comma and a space.
pub open spec fn imports_text(imports: Seq<Seq<char>>) -> Seq<char>
    decreases imports.len(),
{
    if imports.len() == 0 {
        Seq::empty()
    } else {
        imports_text(imports.drop_last()) + imports.last() + ", "@
    }
}

} // verus!
