//! The platform a program is compiled for.
//!
//! The preprocessor seeds its `OS_*` and `ARCH_*` names from the target, and
//! the checker validates registers against it.
use vstd::prelude::*;

use crate::text::chars_of;
use crate::text::contains_part;
use crate::text::first_index;
use crate::text::has_part;
use crate::text::index_of;
use crate::text::lemma_first_index;
use crate::text::lower;
use crate::text::lower_chars;
use crate::text::lowercase;
use crate::text::same;
use crate::text::stands_at;
use crate::text::string_of;

verus! {

/// A target, named by its triple `<arch>-<vendor>-<os>-<env>`. Any string is
/// taken: whether a code generator can use it is found out there.
#[derive(Debug, Clone, PartialEq, Eq)]
pub struct TargetSpec {
    pub triple: String,
}

impl DeepView for TargetSpec {
    type V = Seq<char>;

    open spec fn deep_view(&self) -> Seq<char> {
        self.triple@
    }
}

/// The name that stands for the operating system of a triple, which spells it
/// somewhere in any case.
pub open spec fn os_of(triple: Seq<char>) -> Option<Seq<char>> {
    let t = lowercase(triple);
    if has_part(t, "linux"@) {
        Some("OS_LINUX"@)
    } else if has_part(t, "windows"@) {
        Some("OS_WINDOWS"@)
    } else if has_part(t, "darwin"@) || has_part(t, "macos"@) {
        Some("OS_MACOS"@)
    } else {
        None
    }
}

/// The first component of a triple, in small letters.
pub open spec fn arch_component(triple: Seq<char>) -> Seq<char> {
    lowercase(triple.take(first_index(triple, '-')))
}

/// The name that stands for the architecture of a triple. The spellings of
/// 32-bit x86 are one architecture.
pub open spec fn arch_of(triple: Seq<char>) -> Option<Seq<char>> {
    let arch = arch_component(triple);
    if arch == "x86_64"@ || arch == "amd64"@ {
        Some("ARCH_X86_64"@)
    } else if arch == "aarch64"@ || arch == "arm64"@ {
        Some("ARCH_AARCH64"@)
    } else if arch == "i386"@ || arch == "i486"@ || arch == "i586"@ || arch == "i686"@ {
        Some("ARCH_I386"@)
    } else {
        None
    }
}

impl TargetSpec {
    /// The target called `triple`.
    pub fn parse(triple: &str) -> (r: TargetSpec)
        ensures
            r.deep_view() == triple@,
    {
        TargetSpec { triple: triple.to_owned() }
    }

    /// The triple.
    pub fn triple(&self) -> (r: &str)
        ensures
            r@ == self.deep_view(),
    {
        self.triple.as_str()
    }

    /// A copy of the target.
    pub fn copy(&self) -> (r: TargetSpec)
        ensures
            r.deep_view() == self.deep_view(),
    {
        TargetSpec { triple: self.triple.clone() }
    }

    /// The preprocessor name of the operating system.
    pub fn os_define(&self) -> (r: Option<&'static str>)
        ensures
            r.deep_view() == os_of(self.deep_view()),
    {
        let chars = chars_of(self.triple.as_str());
        let t = lower_chars(&chars);
        if contains_part(&t, "linux") {
            Some("OS_LINUX")
        } else if contains_part(&t, "windows") {
            Some("OS_WINDOWS")
        } else if contains_part(&t, "darwin") || contains_part(&t, "macos") {
            Some("OS_MACOS")
        } else {
            None
        }
    }

    /// The preprocessor name of the architecture.
    pub fn arch_define(&self) -> (r: Option<&'static str>)
        ensures
            r.deep_view() == arch_of(self.deep_view()),
    {
        let chars = chars_of(self.triple.as_str());
        let t = lower_chars(&chars);
        let end: usize = index_of(&chars, '-');
        assert(t@.take(end as int) =~= lowercase(chars@.take(end as int)));
        assert(t@.subrange(0, end as int) =~= t@.take(end as int));
        let arch = string_of(&t, 0, end);
        let a = arch.as_str();
        if same(a, "x86_64") || same(a, "amd64") {
            Some("ARCH_X86_64")
        } else if same(a, "aarch64") || same(a, "arm64") {
            Some("ARCH_AARCH64")
        } else if same(a, "i386") || same(a, "i486") || same(a, "i586") || same(a, "i686") {
            Some("ARCH_I386")
        } else {
            None
        }
    }
}

proof fn lemma_lower(c: char)
    ensures
        lower(lower(c)) == lower(c),
        lower(c) == '-' <==> c == '-',
{
}

/// Capitals in a triple do not matter.
pub proof fn law_capitals_do_not_matter(triple: Seq<char>)
    ensures
        arch_of(lowercase(triple)) == arch_of(triple),
        os_of(lowercase(triple)) == os_of(triple),
{
    let small = lowercase(triple);
    assert(lowercase(small) =~= small) by {
        assert forall|i: int| 0 <= i < small.len() implies lowercase(small)[i] == small[i] by {
            lemma_lower(triple[i]);
        }
    }
    lemma_same_dash(triple);
    let at = first_index(triple, '-');
    lemma_dash_in_range(triple);
    assert(lowercase(small.take(at)) =~= lowercase(triple.take(at))) by {
        assert forall|i: int| 0 <= i < at implies lowercase(small.take(at))[i] == lowercase(
            triple.take(at),
        )[i] by {
            lemma_lower(triple[i]);
        }
    }
}

proof fn lemma_same_dash(s: Seq<char>)
    ensures
        first_index(lowercase(s), '-') == first_index(s, '-'),
    decreases s.len(),
{
    if s.len() > 0 {
        lemma_lower(s[0]);
        lemma_same_dash(s.skip(1));
        assert(lowercase(s).skip(1) =~= lowercase(s.skip(1)));
    }
}

proof fn lemma_dash_in_range(s: Seq<char>)
    ensures
        0 <= first_index(s, '-') <= s.len(),
    decreases s.len(),
{
    if s.len() > 0 {
        lemma_dash_in_range(s.skip(1));
    }
}

/// The architecture is what stands before the first dash.
pub proof fn law_the_architecture_stands_first(arch: Seq<char>, rest: Seq<char>)
    requires
        !arch.contains('-'),
    ensures
        arch_of(arch + seq!['-'] + rest) == arch_of(arch),
{
    let triple = arch + seq!['-'] + rest;
    let n = arch.len() as int;
    assert forall|j: int| 0 <= j < n implies triple[j] != '-' && arch[j] != '-' by {
        assert(triple[j] == arch[j]);
        assert(arch.contains(arch[j]));
    }
    lemma_first_index(triple, '-', n);
    lemma_first_index(arch, '-', n);
    assert(triple.take(n) =~= arch.take(n));
}

/// The spellings of the architectures.
pub proof fn law_architectures(rest: Seq<char>)
    ensures
        arch_of("x86_64"@ + seq!['-'] + rest) == Some("ARCH_X86_64"@),
        arch_of("amd64"@ + seq!['-'] + rest) == Some("ARCH_X86_64"@),
        arch_of("aarch64"@ + seq!['-'] + rest) == Some("ARCH_AARCH64"@),
        arch_of("arm64"@ + seq!['-'] + rest) == Some("ARCH_AARCH64"@),
        arch_of("i386"@ + seq!['-'] + rest) == Some("ARCH_I386"@),
        arch_of("i486"@ + seq!['-'] + rest) == Some("ARCH_I386"@),
        arch_of("i586"@ + seq!['-'] + rest) == Some("ARCH_I386"@),
        arch_of("i686"@ + seq!['-'] + rest) == Some("ARCH_I386"@),
{
    reveal_strlit("x86_64");
    reveal_strlit("amd64");
    reveal_strlit("aarch64");
    reveal_strlit("arm64");
    reveal_strlit("i386");
    reveal_strlit("i486");
    reveal_strlit("i586");
    reveal_strlit("i686");
    lemma_plain_arch("x86_64"@, rest);
    lemma_plain_arch("amd64"@, rest);
    lemma_plain_arch("aarch64"@, rest);
    lemma_plain_arch("arm64"@, rest);
    lemma_plain_arch("i386"@, rest);
    lemma_plain_arch("i486"@, rest);
    lemma_plain_arch("i586"@, rest);
    lemma_plain_arch("i686"@, rest);
    assert("arm64"@[1] != "amd64"@[1]);
}

proof fn lemma_plain_arch(arch: Seq<char>, rest: Seq<char>)
    requires
        forall|i: int| 0 <= i < arch.len() ==> lower(#[trigger] arch[i]) == arch[i] && arch[i]
            != '-',
    ensures
        arch_component(arch) == arch,
        arch_of(arch + seq!['-'] + rest) == arch_of(arch),
{
    assert(!arch.contains('-'));
    law_the_architecture_stands_first(arch, rest);
    lemma_first_index(arch, '-', arch.len() as int);
    assert(arch.take(arch.len() as int) =~= arch);
    assert(lowercase(arch) =~= arch);
}

proof fn lemma_part(a: Seq<char>, word: Seq<char>, b: Seq<char>)
    requires
        forall|i: int| 0 <= i < word.len() ==> lower(#[trigger] word[i]) == word[i],
    ensures
        has_part(lowercase(a + word + b), word),
{
    let hay = lowercase(a + word + b);
    let at = a.len() as int;
    assert(hay.subrange(at, at + word.len()) =~= word);
    assert(stands_at(hay, word, at));
}

/// The operating system is named somewhere in a triple, Linux before Windows
/// before macOS.
pub proof fn law_systems(a: Seq<char>, b: Seq<char>)
    ensures
        os_of(a + "linux"@ + b) == Some("OS_LINUX"@),
        !has_part(lowercase(a + "windows"@ + b), "linux"@) ==> os_of(a + "windows"@ + b) == Some(
            "OS_WINDOWS"@,
        ),
        !has_part(lowercase(a + "darwin"@ + b), "linux"@) && !has_part(
            lowercase(a + "darwin"@ + b),
            "windows"@,
        ) ==> os_of(a + "darwin"@ + b) == Some("OS_MACOS"@),
        !has_part(lowercase(a + "macos"@ + b), "linux"@) && !has_part(
            lowercase(a + "macos"@ + b),
            "windows"@,
        ) ==> os_of(a + "macos"@ + b) == Some("OS_MACOS"@),
{
    reveal_strlit("linux");
    reveal_strlit("windows");
    reveal_strlit("darwin");
    reveal_strlit("macos");
    lemma_part(a, "linux"@, b);
    lemma_part(a, "windows"@, b);
    lemma_part(a, "darwin"@, b);
    lemma_part(a, "macos"@, b);
}

} // verus!
