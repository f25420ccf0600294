//! File icons and highlighter languages, chosen from a file's name.
//!
//! Names are compared as UTF-8 bytes: every rule is about ASCII text, and
//! `/` and `.` never occur inside a multi-byte character.
use vstd::prelude::*;
use vstd::utf8::*;
use crate::inline_file::lemma_char_bytes;
use crate::text::{lemma_utf8_concat, lower_byte, utf8, substr, lemma_boundary_after_ascii, lemma_boundary_at_ascii, bytes_eq, bytes_start_with, bytes_end_with, bytes_contain, contains_bytes,
    lower_bytes, lowercase_bytes};

verus! {

broadcast use vstd::utf8::encode_utf8_valid_utf8;

/// The UTF-8 bytes of a literal.
pub open spec fn lit(s: &str) -> Seq<u8> {
    utf8(s@)
}

/// `n` begins with `p`.
pub open spec fn starts(n: Seq<u8>, p: Seq<u8>) -> bool {
    p.len() <= n.len() && n.subrange(0, p.len() as int) == p
}

/// `n` ends with `s`.
pub open spec fn ends(n: Seq<u8>, s: Seq<u8>) -> bool {
    s.len() <= n.len() && n.subrange(n.len() - s.len(), n.len() as int) == s
}

/// An optional literal, by its characters.
pub open spec fn opt_chars(o: Option<&str>) -> Option<Seq<char>> {
    match o {
        Some(s) => Some(s@),
        None => None,
    }
}

fn is_lit(n: &[u8], s: &str) -> (r: bool)
    ensures
        r == (n@ == lit(s)),
{
    bytes_eq(n, s.as_bytes())
}

fn starts_lit(n: &[u8], s: &str) -> (r: bool)
    ensures
        r == starts(n@, lit(s)),
{
    bytes_start_with(n, s.as_bytes())
}

fn ends_lit(n: &[u8], s: &str) -> (r: bool)
    ensures
        r == ends(n@, lit(s)),
{
    bytes_end_with(n, s.as_bytes())
}

fn has_lit(n: &[u8], s: &str) -> (r: bool)
    ensures
        r == contains_bytes(n@, lit(s)),
{
    bytes_contain(n, s.as_bytes())
}

// ---------------------------------------------------------------------------
// File names and extensions (Unix `Path` semantics, lexical)
// ---------------------------------------------------------------------------
/// The `/`-separated segments of a path, empty ones included.
pub open spec fn byte_segments(b: Seq<u8>) -> Seq<Seq<u8>>
    decreases b.len(),
{
    if b.len() == 0 {
        seq![seq![]]
    } else {
        let sp = byte_segments(b.drop_last());
        if b.last() == 47u8 {
            sp.push(seq![])
        } else {
            sp.update(sp.len() - 1, sp.last().push(b.last()))
        }
    }
}

/// A segment that names something: neither empty nor `.`.
pub open spec fn is_named(seg: Seq<u8>) -> bool {
    seg.len() > 0 && seg != seq![46u8]
}

/// The last segment that names something.
pub open spec fn last_named(segs: Seq<Seq<u8>>) -> Option<Seq<u8>>
    decreases segs.len(),
{
    if segs.len() == 0 {
        None
    } else if is_named(segs.last()) {
        Some(segs.last())
    } else {
        last_named(segs.drop_last())
    }
}

/// The final component of a path (`Path::file_name` on Unix, `/` the only
/// separator): its last named segment, unless that is `..` or there is none.
pub open spec fn file_name_of(b: Seq<u8>) -> Option<Seq<u8>> {
    match last_named(byte_segments(b)) {
        Some(s) => if s == seq![46u8, 46u8] {
            None
        } else {
            Some(s)
        },
        None => None,
    }
}

/// Position of the last `x` in `s`.
pub open spec fn last_index_of(s: Seq<u8>, x: u8) -> Option<int>
    decreases s.len(),
{
    if s.len() == 0 {
        None
    } else if s.last() == x {
        Some(s.len() - 1)
    } else {
        last_index_of(s.drop_last(), x)
    }
}

/// The extension of a file name (`Path::extension`): what follows its last
/// `.`, unless there is none or the only one starts the name.
pub open spec fn extension_of(name: Seq<u8>) -> Option<Seq<u8>> {
    match last_index_of(name, 46u8) {
        Some(k) => if k > 0 {
            Some(name.skip(k + 1))
        } else {
            None
        },
        None => None,
    }
}

/// The extension of a path's file name, if it has both.
pub open spec fn path_extension_of(b: Seq<u8>) -> Option<Seq<u8>> {
    match file_name_of(b) {
        Some(f) => extension_of(f),
        None => None,
    }
}

proof fn lemma_last_index_here(s: Seq<u8>, x: u8, r: Option<int>)
    requires
        r matches Some(k) ==> 0 <= k < s.len() && s[k] == x && forall|j: int|
            k < j < s.len() ==> s[j] != x,
        r is None ==> forall|j: int| 0 <= j < s.len() ==> s[j] != x,
    ensures
        last_index_of(s, x) == r,
    decreases s.len(),
{
    if s.len() > 0 && s.last() != x {
        lemma_last_index_here(s.drop_last(), x, r);
    }
}

/// Where the file name of `b` lies in it.
fn file_name_range(b: &[u8]) -> (r: Option<(usize, usize)>)
    ensures
        match r {
            Some((s, e)) => {
                &&& s <= e <= b@.len()
                &&& file_name_of(b@) == Some(b@.subrange(s as int, e as int))
                &&& s == 0 || b@[s - 1] == 47u8
                &&& e == b@.len() || b@[e as int] == 47u8
            },
            None => file_name_of(b@) is None,
        },
{
    let ghost mut done: Seq<Seq<u8>> = seq![];
    let mut last: Option<(usize, usize)> = None;
    let mut cur: usize = 0;
    let mut i: usize = 0;
    assert(b@.take(0) =~= Seq::<u8>::empty());
    assert(b@.subrange(0, 0) =~= Seq::<u8>::empty());
    while i < b.len()
        invariant
            cur <= i <= b@.len(),
            byte_segments(b@.take(i as int)) == done.push(b@.subrange(cur as int, i as int)),
            last_named(done) == match last {
                Some((s, e)) => Some(b@.subrange(s as int, e as int)),
                None => None::<Seq<u8>>,
            },
            last matches Some((s, e)) ==> s <= e < b@.len() && (s == 0 || b@[s - 1] == 47u8)
                && b@[e as int] == 47u8,
            cur == 0 || b@[cur - 1] == 47u8,
        decreases b@.len() - i,
    {
        let ghost seg = b@.subrange(cur as int, i as int);
        assert(b@.take(i + 1).drop_last() =~= b@.take(i as int));
        if b[i] == 47u8 {
            let named = i > cur && !(i == cur + 1 && b[cur] == 46u8);
            proof {
                if seg.len() == 1 {
                    assert(seg == seq![46u8] <==> seg[0] == 46u8) by {
                        if seg[0] == 46u8 {
                            assert(seg =~= seq![46u8]);
                        }
                    }
                }
                assert(named == is_named(seg));
                assert(done.push(seg).drop_last() =~= done);
                done = done.push(seg);
            }
            if named {
                last = Some((cur, i));
            }
            cur = i + 1;
            assert(b@.subrange(cur as int, cur as int) =~= Seq::<u8>::empty());
            assert(byte_segments(b@.take(i + 1)) =~= done.push(b@.subrange(cur as int, i + 1)));
        } else {
            assert(b@.subrange(cur as int, i + 1) =~= seg.push(b@[i as int]));
            assert(byte_segments(b@.take(i + 1)) =~= done.push(b@.subrange(cur as int, i + 1)));
        }
        i = i + 1;
    }
    let ghost seg = b@.subrange(cur as int, i as int);
    assert(b@.take(b@.len() as int) =~= b@);
    let named = i > cur && !(i == cur + 1 && b[cur] == 46u8);
    proof {
        if seg.len() == 1 {
            assert(seg == seq![46u8] <==> seg[0] == 46u8) by {
                if seg[0] == 46u8 {
                    assert(seg =~= seq![46u8]);
                }
            }
        }
        assert(named == is_named(seg));
        assert(done.push(seg).drop_last() =~= done);
    }
    let found = if named {
        Some((cur, i))
    } else {
        last
    };
    match found {
        Some((s, e)) => {
            let ghost f = b@.subrange(s as int, e as int);
            let dots = e - s == 2 && b[s] == 46u8 && b[s + 1] == 46u8;
            proof {
                if f.len() == 2 {
                    assert(f == seq![46u8, 46u8] <==> (f[0] == 46u8 && f[1] == 46u8)) by {
                        if f[0] == 46u8 && f[1] == 46u8 {
                            assert(f =~= seq![46u8, 46u8]);
                        }
                    }
                }
            }
            if dots {
                None
            } else {
                Some((s, e))
            }
        },
        None => None,
    }
}

/// Where the extension of the name `b[s..e]` starts, if it has one.
pub(crate) fn extension_start(b: &[u8], s: usize, e: usize) -> (r: Option<usize>)
    requires
        s <= e <= b@.len(),
    ensures
        match r {
            Some(k) => s <= k <= e && extension_of(b@.subrange(s as int, e as int)) == Some(
                b@.subrange(k as int, e as int),
            ),
            None => extension_of(b@.subrange(s as int, e as int)) is None,
        },
{
    let ghost name = b@.subrange(s as int, e as int);
    let mut j = e;
    while j > s
        invariant
            s <= j <= e <= b@.len(),
            name == b@.subrange(s as int, e as int),
            forall|k: int| j <= k < e ==> b@[k] != 46u8,
        decreases j,
    {
        if b[j - 1] == 46u8 {
            proof {
                lemma_last_index_here(name, 46u8, Some(j - 1 - s));
                assert(name.skip(j - s) =~= b@.subrange(j as int, e as int));
            }
            if j - 1 > s {
                return Some(j);
            } else {
                return None;
            }
        }
        j = j - 1;
    }
    proof {
        lemma_last_index_here(name, 46u8, None);
    }
    None
}

// ---------------------------------------------------------------------------
// File icons
// ---------------------------------------------------------------------------
/// Named icons: project, build and package files.
pub open spec fn named_icon_a(n: Seq<u8>) -> Option<Seq<char>> {
    if starts(n, lit("readme")) {
        Some("icons/file-types/readme.svg"@)
    } else if starts(n, lit("license"))
        || starts(n, lit("licence"))
        || starts(n, lit("copying")) {
        Some("icons/file-types/certificate.svg"@)
    } else if starts(n, lit("dockerfile")) || starts(n, lit("compose.")) {
        Some("icons/file-types/docker.svg"@)
    } else if n == lit("cmakelists.txt") || starts(n, lit("cmake.")) {
        Some("icons/file-types/cmake.svg"@)
    } else if n == lit("makefile")
        || starts(n, lit("makefile."))
        || n == lit("justfile") {
        Some("icons/file-types/makefile.svg"@)
    } else if n == lit("cargo.toml")
        || n == lit("cargo.lock")
        || n == lit("rust-toolchain.toml") {
        Some("icons/file-types/rust.svg"@)
    } else if n == lit("go.mod")
        || n == lit("go.sum")
        || n == lit("go.work") {
        Some("icons/file-types/go.svg"@)
    } else if n == lit("pyproject.toml")
        || n == lit("pipfile")
        || starts(n, lit("requirements")) {
        Some("icons/file-types/python.svg"@)
    } else if n == lit("bun.lock")
        || n == lit("bun.lockb")
        || n == lit("bunfig.toml") {
        Some("icons/file-types/bun.svg"@)
    } else if starts(n, lit("pnpm-")) || n == lit(".pnpmfile.cjs") {
        Some("icons/file-types/pnpm.svg"@)
    } else if n == lit("yarn.lock") || starts(n, lit(".yarnrc")) {
        Some("icons/file-types/yarn.svg"@)
    } else if n == lit("package.json") {
        Some("icons/file-types/nodejs.svg"@)
    } else if n == lit("package-lock.json") {
        Some("icons/file-types/npm.svg"@)
    } else if starts(n, lit("tsconfig.")) || n == lit("tsconfig.json") {
        Some("icons/file-types/typescript.svg"@)
    } else if starts(n, lit("jsconfig.")) || n == lit("jsconfig.json") {
        Some("icons/file-types/javascript.svg"@)
    } else if n == lit(".gitignore")
        || n == lit(".gitattributes")
        || n == lit(".gitmodules")
        || n == lit(".gitconfig") {
        Some("icons/file-types/git.svg"@)
    } else if n == lit(".editorconfig") {
        Some("icons/file-types/editorconfig.svg"@)
    } else {
        None
    }
}

fn named_icon_a_exec(n: &[u8]) -> (r: Option<&'static str>)
    ensures
        opt_chars(r) == named_icon_a(n@),
{
    if starts_lit(n, "readme") {
        Some("icons/file-types/readme.svg")
    } else if starts_lit(n, "license")
        || starts_lit(n, "licence")
        || starts_lit(n, "copying") {
        Some("icons/file-types/certificate.svg")
    } else if starts_lit(n, "dockerfile") || starts_lit(n, "compose.") {
        Some("icons/file-types/docker.svg")
    } else if is_lit(n, "cmakelists.txt") || starts_lit(n, "cmake.") {
        Some("icons/file-types/cmake.svg")
    } else if is_lit(n, "makefile")
        || starts_lit(n, "makefile.")
        || is_lit(n, "justfile") {
        Some("icons/file-types/makefile.svg")
    } else if is_lit(n, "cargo.toml")
        || is_lit(n, "cargo.lock")
        || is_lit(n, "rust-toolchain.toml") {
        Some("icons/file-types/rust.svg")
    } else if is_lit(n, "go.mod")
        || is_lit(n, "go.sum")
        || is_lit(n, "go.work") {
        Some("icons/file-types/go.svg")
    } else if is_lit(n, "pyproject.toml")
        || is_lit(n, "pipfile")
        || starts_lit(n, "requirements") {
        Some("icons/file-types/python.svg")
    } else if is_lit(n, "bun.lock")
        || is_lit(n, "bun.lockb")
        || is_lit(n, "bunfig.toml") {
        Some("icons/file-types/bun.svg")
    } else if starts_lit(n, "pnpm-") || is_lit(n, ".pnpmfile.cjs") {
        Some("icons/file-types/pnpm.svg")
    } else if is_lit(n, "yarn.lock") || starts_lit(n, ".yarnrc") {
        Some("icons/file-types/yarn.svg")
    } else if is_lit(n, "package.json") {
        Some("icons/file-types/nodejs.svg")
    } else if is_lit(n, "package-lock.json") {
        Some("icons/file-types/npm.svg")
    } else if starts_lit(n, "tsconfig.") || is_lit(n, "tsconfig.json") {
        Some("icons/file-types/typescript.svg")
    } else if starts_lit(n, "jsconfig.") || is_lit(n, "jsconfig.json") {
        Some("icons/file-types/javascript.svg")
    } else if is_lit(n, ".gitignore")
        || is_lit(n, ".gitattributes")
        || is_lit(n, ".gitmodules")
        || is_lit(n, ".gitconfig") {
        Some("icons/file-types/git.svg")
    } else if is_lit(n, ".editorconfig") {
        Some("icons/file-types/editorconfig.svg")
    } else {
        None
    }
}

/// Named icons: tool configuration files.
pub open spec fn named_icon_b(n: Seq<u8>) -> Option<Seq<char>> {
    if starts(n, lit(".env")) {
        Some("icons/file-types/settings.svg"@)
    } else if starts(n, lit(".prettier")) || starts(n, lit("prettier.config.")) {
        Some("icons/file-types/prettier.svg"@)
    } else if starts(n, lit(".eslint")) || starts(n, lit("eslint.config.")) {
        Some("icons/file-types/eslint.svg"@)
    } else if starts(n, lit("biome.json")) {
        Some("icons/file-types/biome.svg"@)
    } else if starts(n, lit(".babel")) || starts(n, lit("babel.config.")) {
        Some("icons/file-types/babel.svg"@)
    } else if starts(n, lit(".stylelint")) || starts(n, lit("stylelint.config.")) {
        Some("icons/file-types/stylelint.svg"@)
    } else if starts(n, lit("vite.config.")) {
        Some("icons/file-types/vite.svg"@)
    } else if starts(n, lit("vitest.config.")) || starts(n, lit("vitest.workspace.")) {
        Some("icons/file-types/vitest.svg"@)
    } else if starts(n, lit("webpack.")) {
        Some("icons/file-types/webpack.svg"@)
    } else if starts(n, lit("rollup.config.")) {
        Some("icons/file-types/rollup.svg"@)
    } else if starts(n, lit("next.config.")) {
        Some("icons/file-types/next.svg"@)
    } else if n == lit("next-env.d.ts") {
        Some("icons/file-types/next.svg"@)
    } else if starts(n, lit("nuxt.config.")) || n == lit(".nuxtrc") {
        Some("icons/file-types/nuxt.svg"@)
    } else if starts(n, lit("astro.config.")) {
        Some("icons/file-types/astro.svg"@)
    } else if n == lit("angular.json") || ends(n, lit(".component.ts")) {
        Some("icons/file-types/angular.svg"@)
    } else if n == lit("nest-cli.json") {
        Some("icons/file-types/nest.svg"@)
    } else if starts(n, lit("tailwind.config.")) {
        Some("icons/file-types/tailwindcss.svg"@)
    } else {
        None
    }
}

fn named_icon_b_exec(n: &[u8]) -> (r: Option<&'static str>)
    ensures
        opt_chars(r) == named_icon_b(n@),
{
    if starts_lit(n, ".env") {
        Some("icons/file-types/settings.svg")
    } else if starts_lit(n, ".prettier") || starts_lit(n, "prettier.config.") {
        Some("icons/file-types/prettier.svg")
    } else if starts_lit(n, ".eslint") || starts_lit(n, "eslint.config.") {
        Some("icons/file-types/eslint.svg")
    } else if starts_lit(n, "biome.json") {
        Some("icons/file-types/biome.svg")
    } else if starts_lit(n, ".babel") || starts_lit(n, "babel.config.") {
        Some("icons/file-types/babel.svg")
    } else if starts_lit(n, ".stylelint") || starts_lit(n, "stylelint.config.") {
        Some("icons/file-types/stylelint.svg")
    } else if starts_lit(n, "vite.config.") {
        Some("icons/file-types/vite.svg")
    } else if starts_lit(n, "vitest.config.") || starts_lit(n, "vitest.workspace.") {
        Some("icons/file-types/vitest.svg")
    } else if starts_lit(n, "webpack.") {
        Some("icons/file-types/webpack.svg")
    } else if starts_lit(n, "rollup.config.") {
        Some("icons/file-types/rollup.svg")
    } else if starts_lit(n, "next.config.") {
        Some("icons/file-types/next.svg")
    } else if is_lit(n, "next-env.d.ts") {
        Some("icons/file-types/next.svg")
    } else if starts_lit(n, "nuxt.config.") || is_lit(n, ".nuxtrc") {
        Some("icons/file-types/nuxt.svg")
    } else if starts_lit(n, "astro.config.") {
        Some("icons/file-types/astro.svg")
    } else if is_lit(n, "angular.json") || ends_lit(n, ".component.ts") {
        Some("icons/file-types/angular.svg")
    } else if is_lit(n, "nest-cli.json") {
        Some("icons/file-types/nest.svg")
    } else if starts_lit(n, "tailwind.config.") {
        Some("icons/file-types/tailwindcss.svg")
    } else {
        None
    }
}

/// Named icons: service, deployment and remaining files.
pub open spec fn named_icon_c(n: Seq<u8>) -> Option<Seq<char>> {
    if starts(n, lit("svelte.config.")) {
        Some("icons/file-types/svelte.svg"@)
    } else if starts(n, lit("vue.config.")) {
        Some("icons/file-types/vue.svg"@)
    } else if n == lit("firebase.json") || n == lit(".firebaserc") {
        Some("icons/file-types/firebase.svg"@)
    } else if n == lit("supabase.toml") {
        Some("icons/file-types/supabase.svg"@)
    } else if starts(n, lit("prisma.config.")) {
        Some("icons/file-types/prisma.svg"@)
    } else if n == lit("turbo.json") {
        Some("icons/file-types/turborepo.svg"@)
    } else if starts(n, lit("deno.json")) || n == lit("deno.lock") {
        Some("icons/file-types/deno.svg"@)
    } else if n == lit(".gitlab-ci.yml") || n == lit(".gitlab-ci.yaml") {
        Some("icons/file-types/gitlab.svg"@)
    } else if n == lit("kustomization.yaml") || n == lit("kustomization.yml") {
        Some("icons/file-types/kubernetes.svg"@)
    } else if n == lit("chart.yaml") || n == lit("values.yaml") {
        Some("icons/file-types/helm.svg"@)
    } else if n == lit("nginx.conf") {
        Some("icons/file-types/nginx.svg"@)
    } else if n == lit(".nvmrc") || n == lit(".node-version") {
        Some("icons/file-types/nodejs.svg"@)
    } else if n == lit("build.gradle")
        || n == lit("settings.gradle")
        || n == lit("gradlew")
        || n == lit("gradlew.bat") {
        Some("icons/file-types/gradle.svg"@)
    } else if contains_bytes(n, lit(".stories.")) || contains_bytes(n, lit(".story.")) {
        Some("icons/file-types/storybook.svg"@)
    } else if n == lit("gemfile") || n == lit("gemfile.lock") {
        Some("icons/file-types/ruby.svg"@)
    } else if n == lit("pom.xml") {
        Some("icons/file-types/java.svg"@)
    } else {
        None
    }
}

fn named_icon_c_exec(n: &[u8]) -> (r: Option<&'static str>)
    ensures
        opt_chars(r) == named_icon_c(n@),
{
    if starts_lit(n, "svelte.config.") {
        Some("icons/file-types/svelte.svg")
    } else if starts_lit(n, "vue.config.") {
        Some("icons/file-types/vue.svg")
    } else if is_lit(n, "firebase.json") || is_lit(n, ".firebaserc") {
        Some("icons/file-types/firebase.svg")
    } else if is_lit(n, "supabase.toml") {
        Some("icons/file-types/supabase.svg")
    } else if starts_lit(n, "prisma.config.") {
        Some("icons/file-types/prisma.svg")
    } else if is_lit(n, "turbo.json") {
        Some("icons/file-types/turborepo.svg")
    } else if starts_lit(n, "deno.json") || is_lit(n, "deno.lock") {
        Some("icons/file-types/deno.svg")
    } else if is_lit(n, ".gitlab-ci.yml") || is_lit(n, ".gitlab-ci.yaml") {
        Some("icons/file-types/gitlab.svg")
    } else if is_lit(n, "kustomization.yaml") || is_lit(n, "kustomization.yml") {
        Some("icons/file-types/kubernetes.svg")
    } else if is_lit(n, "chart.yaml") || is_lit(n, "values.yaml") {
        Some("icons/file-types/helm.svg")
    } else if is_lit(n, "nginx.conf") {
        Some("icons/file-types/nginx.svg")
    } else if is_lit(n, ".nvmrc") || is_lit(n, ".node-version") {
        Some("icons/file-types/nodejs.svg")
    } else if is_lit(n, "build.gradle")
        || is_lit(n, "settings.gradle")
        || is_lit(n, "gradlew")
        || is_lit(n, "gradlew.bat") {
        Some("icons/file-types/gradle.svg")
    } else if has_lit(n, ".stories.") || has_lit(n, ".story.") {
        Some("icons/file-types/storybook.svg")
    } else if is_lit(n, "gemfile") || is_lit(n, "gemfile.lock") {
        Some("icons/file-types/ruby.svg")
    } else if is_lit(n, "pom.xml") {
        Some("icons/file-types/java.svg")
    } else {
        None
    }
}

/// Extension icons: languages, data and media.
pub open spec fn extension_icon_a(e: Seq<u8>) -> Option<Seq<char>> {
    if e == lit("rs") {
        Some("icons/file-types/rust.svg"@)
    } else if e == lit("js")
        || e == lit("mjs")
        || e == lit("cjs") {
        Some("icons/file-types/javascript.svg"@)
    } else if e == lit("ts")
        || e == lit("mts")
        || e == lit("cts") {
        Some("icons/file-types/typescript.svg"@)
    } else if e == lit("jsx") || e == lit("tsx") {
        Some("icons/file-types/react.svg"@)
    } else if e == lit("py")
        || e == lit("pyi")
        || e == lit("pyw") {
        Some("icons/file-types/python.svg"@)
    } else if e == lit("go") {
        Some("icons/file-types/go.svg"@)
    } else if e == lit("c")
        || e == lit("h")
        || e == lit("m") {
        Some("icons/file-types/c.svg"@)
    } else if e == lit("cc")
        || e == lit("cpp")
        || e == lit("cxx")
        || e == lit("hh")
        || e == lit("hpp")
        || e == lit("hxx")
        || e == lit("mm") {
        Some("icons/file-types/cpp.svg"@)
    } else if e == lit("cs") {
        Some("icons/file-types/csharp.svg"@)
    } else if e == lit("swift") {
        Some("icons/file-types/swift.svg"@)
    } else if e == lit("kt") || e == lit("kts") {
        Some("icons/file-types/kotlin.svg"@)
    } else if e == lit("java") || e == lit("class") {
        Some("icons/file-types/java.svg"@)
    } else if e == lit("rb") {
        Some("icons/file-types/ruby.svg"@)
    } else if e == lit("php") {
        Some("icons/file-types/php.svg"@)
    } else if e == lit("html") || e == lit("htm") {
        Some("icons/file-types/html.svg"@)
    } else if e == lit("css") || e == lit("less") {
        Some("icons/file-types/css.svg"@)
    } else if e == lit("scss") || e == lit("sass") {
        Some("icons/file-types/sass.svg"@)
    } else if e == lit("json")
        || e == lit("jsonc")
        || e == lit("jsonl") {
        Some("icons/file-types/json.svg"@)
    } else if e == lit("yaml") || e == lit("yml") {
        Some("icons/file-types/yaml.svg"@)
    } else if e == lit("toml")
        || e == lit("ini")
        || e == lit("cfg")
        || e == lit("conf")
        || e == lit("config") {
        Some("icons/file-types/settings.svg"@)
    } else if e == lit("xml")
        || e == lit("xsl")
        || e == lit("plist") {
        Some("icons/file-types/xml.svg"@)
    } else if e == lit("md")
        || e == lit("mdx")
        || e == lit("markdown") {
        Some("icons/file-types/markdown.svg"@)
    } else if e == lit("sh")
        || e == lit("bash")
        || e == lit("zsh")
        || e == lit("fish") {
        Some("icons/file-types/console.svg"@)
    } else if e == lit("ps1") || e == lit("psm1") {
        Some("icons/file-types/powershell.svg"@)
    } else if e == lit("sql")
        || e == lit("db")
        || e == lit("sqlite")
        || e == lit("sqlite3")
        || e == lit("csv")
        || e == lit("xls")
        || e == lit("xlsx") {
        Some("icons/file-types/database.svg"@)
    } else if e == lit("png")
        || e == lit("jpg")
        || e == lit("jpeg")
        || e == lit("gif")
        || e == lit("webp")
        || e == lit("avif")
        || e == lit("ico")
        || e == lit("tiff") {
        Some("icons/file-types/image.svg"@)
    } else if e == lit("svg") {
        Some("icons/file-types/svg.svg"@)
    } else if e == lit("pdf") {
        Some("icons/file-types/pdf.svg"@)
    } else if e == lit("mp3")
        || e == lit("wav")
        || e == lit("flac")
        || e == lit("ogg")
        || e == lit("m4a") {
        Some("icons/file-types/audio.svg"@)
    } else if e == lit("mp4")
        || e == lit("mov")
        || e == lit("avi")
        || e == lit("webm")
        || e == lit("mkv") {
        Some("icons/file-types/video.svg"@)
    } else if e == lit("zip")
        || e == lit("gz")
        || e == lit("tgz")
        || e == lit("bz2")
        || e == lit("xz")
        || e == lit("7z")
        || e == lit("rar")
        || e == lit("tar")
        || e == lit("jar") {
        Some("icons/file-types/zip.svg"@)
    } else {
        None
    }
}

fn extension_icon_a_exec(e: &[u8]) -> (r: Option<&'static str>)
    ensures
        opt_chars(r) == extension_icon_a(e@),
{
    if is_lit(e, "rs") {
        Some("icons/file-types/rust.svg")
    } else if is_lit(e, "js")
        || is_lit(e, "mjs")
        || is_lit(e, "cjs") {
        Some("icons/file-types/javascript.svg")
    } else if is_lit(e, "ts")
        || is_lit(e, "mts")
        || is_lit(e, "cts") {
        Some("icons/file-types/typescript.svg")
    } else if is_lit(e, "jsx") || is_lit(e, "tsx") {
        Some("icons/file-types/react.svg")
    } else if is_lit(e, "py")
        || is_lit(e, "pyi")
        || is_lit(e, "pyw") {
        Some("icons/file-types/python.svg")
    } else if is_lit(e, "go") {
        Some("icons/file-types/go.svg")
    } else if is_lit(e, "c")
        || is_lit(e, "h")
        || is_lit(e, "m") {
        Some("icons/file-types/c.svg")
    } else if is_lit(e, "cc")
        || is_lit(e, "cpp")
        || is_lit(e, "cxx")
        || is_lit(e, "hh")
        || is_lit(e, "hpp")
        || is_lit(e, "hxx")
        || is_lit(e, "mm") {
        Some("icons/file-types/cpp.svg")
    } else if is_lit(e, "cs") {
        Some("icons/file-types/csharp.svg")
    } else if is_lit(e, "swift") {
        Some("icons/file-types/swift.svg")
    } else if is_lit(e, "kt") || is_lit(e, "kts") {
        Some("icons/file-types/kotlin.svg")
    } else if is_lit(e, "java") || is_lit(e, "class") {
        Some("icons/file-types/java.svg")
    } else if is_lit(e, "rb") {
        Some("icons/file-types/ruby.svg")
    } else if is_lit(e, "php") {
        Some("icons/file-types/php.svg")
    } else if is_lit(e, "html") || is_lit(e, "htm") {
        Some("icons/file-types/html.svg")
    } else if is_lit(e, "css") || is_lit(e, "less") {
        Some("icons/file-types/css.svg")
    } else if is_lit(e, "scss") || is_lit(e, "sass") {
        Some("icons/file-types/sass.svg")
    } else if is_lit(e, "json")
        || is_lit(e, "jsonc")
        || is_lit(e, "jsonl") {
        Some("icons/file-types/json.svg")
    } else if is_lit(e, "yaml") || is_lit(e, "yml") {
        Some("icons/file-types/yaml.svg")
    } else if is_lit(e, "toml")
        || is_lit(e, "ini")
        || is_lit(e, "cfg")
        || is_lit(e, "conf")
        || is_lit(e, "config") {
        Some("icons/file-types/settings.svg")
    } else if is_lit(e, "xml")
        || is_lit(e, "xsl")
        || is_lit(e, "plist") {
        Some("icons/file-types/xml.svg")
    } else if is_lit(e, "md")
        || is_lit(e, "mdx")
        || is_lit(e, "markdown") {
        Some("icons/file-types/markdown.svg")
    } else if is_lit(e, "sh")
        || is_lit(e, "bash")
        || is_lit(e, "zsh")
        || is_lit(e, "fish") {
        Some("icons/file-types/console.svg")
    } else if is_lit(e, "ps1") || is_lit(e, "psm1") {
        Some("icons/file-types/powershell.svg")
    } else if is_lit(e, "sql")
        || is_lit(e, "db")
        || is_lit(e, "sqlite")
        || is_lit(e, "sqlite3")
        || is_lit(e, "csv")
        || is_lit(e, "xls")
        || is_lit(e, "xlsx") {
        Some("icons/file-types/database.svg")
    } else if is_lit(e, "png")
        || is_lit(e, "jpg")
        || is_lit(e, "jpeg")
        || is_lit(e, "gif")
        || is_lit(e, "webp")
        || is_lit(e, "avif")
        || is_lit(e, "ico")
        || is_lit(e, "tiff") {
        Some("icons/file-types/image.svg")
    } else if is_lit(e, "svg") {
        Some("icons/file-types/svg.svg")
    } else if is_lit(e, "pdf") {
        Some("icons/file-types/pdf.svg")
    } else if is_lit(e, "mp3")
        || is_lit(e, "wav")
        || is_lit(e, "flac")
        || is_lit(e, "ogg")
        || is_lit(e, "m4a") {
        Some("icons/file-types/audio.svg")
    } else if is_lit(e, "mp4")
        || is_lit(e, "mov")
        || is_lit(e, "avi")
        || is_lit(e, "webm")
        || is_lit(e, "mkv") {
        Some("icons/file-types/video.svg")
    } else if is_lit(e, "zip")
        || is_lit(e, "gz")
        || is_lit(e, "tgz")
        || is_lit(e, "bz2")
        || is_lit(e, "xz")
        || is_lit(e, "7z")
        || is_lit(e, "rar")
        || is_lit(e, "tar")
        || is_lit(e, "jar") {
        Some("icons/file-types/zip.svg")
    } else {
        None
    }
}

/// Extension icons: less common languages and binaries.
pub open spec fn extension_icon_b(e: Seq<u8>) -> Option<Seq<char>> {
    if e == lit("wasm") || e == lit("wat") {
        Some("icons/file-types/webassembly.svg"@)
    } else if e == lit("svelte") {
        Some("icons/file-types/svelte.svg"@)
    } else if e == lit("vue") {
        Some("icons/file-types/vue.svg"@)
    } else if e == lit("tf") || e == lit("tfvars") {
        Some("icons/file-types/terraform.svg"@)
    } else if e == lit("graphql") || e == lit("gql") {
        Some("icons/file-types/graphql.svg"@)
    } else if e == lit("lua") {
        Some("icons/file-types/lua.svg"@)
    } else if e == lit("dart") {
        Some("icons/file-types/dart.svg"@)
    } else if e == lit("astro") {
        Some("icons/file-types/astro.svg"@)
    } else if e == lit("coffee") || e == lit("cson") {
        Some("icons/file-types/coffee.svg"@)
    } else if e == lit("cr") {
        Some("icons/file-types/crystal.svg"@)
    } else if e == lit("ex") || e == lit("exs") {
        Some("icons/file-types/elixir.svg"@)
    } else if e == lit("elm") {
        Some("icons/file-types/elm.svg"@)
    } else if e == lit("erl") || e == lit("hrl") {
        Some("icons/file-types/erlang.svg"@)
    } else if e == lit("clj")
        || e == lit("cljs")
        || e == lit("cljc")
        || e == lit("edn") {
        Some("icons/file-types/clojure.svg"@)
    } else if e == lit("hs") || e == lit("lhs") {
        Some("icons/file-types/haskell.svg"@)
    } else if e == lit("hx") || e == lit("hxml") {
        Some("icons/file-types/haxe.svg"@)
    } else if e == lit("jinja")
        || e == lit("jinja2")
        || e == lit("j2") {
        Some("icons/file-types/jinja.svg"@)
    } else if e == lit("jl") {
        Some("icons/file-types/julia.svg"@)
    } else if e == lit("ml") || e == lit("mli") {
        Some("icons/file-types/ocaml.svg"@)
    } else if e == lit("pl") || e == lit("pm") {
        Some("icons/file-types/perl.svg"@)
    } else if e == lit("prisma") {
        Some("icons/file-types/prisma.svg"@)
    } else if e == lit("pug") || e == lit("jade") {
        Some("icons/file-types/pug.svg"@)
    } else if e == lit("scala")
        || e == lit("sbt")
        || e == lit("sc") {
        Some("icons/file-types/scala.svg"@)
    } else if e == lit("sol") {
        Some("icons/file-types/solidity.svg"@)
    } else if e == lit("tex")
        || e == lit("sty")
        || e == lit("cls") {
        Some("icons/file-types/tex.svg"@)
    } else if e == lit("xaml") {
        Some("icons/file-types/xaml.svg"@)
    } else if e == lit("zig") {
        Some("icons/file-types/zig.svg"@)
    } else if e == lit("nix") {
        Some("icons/file-types/nix.svg"@)
    } else if e == lit("proto") {
        Some("icons/file-types/proto.svg"@)
    } else if e == lit("diff") || e == lit("patch") {
        Some("icons/file-types/diff.svg"@)
    } else if e == lit("exe")
        || e == lit("dll")
        || e == lit("so")
        || e == lit("dylib") {
        Some("icons/file-types/exe.svg"@)
    } else if e == lit("lock") {
        Some("icons/file-types/lock.svg"@)
    } else {
        None
    }
}

fn extension_icon_b_exec(e: &[u8]) -> (r: Option<&'static str>)
    ensures
        opt_chars(r) == extension_icon_b(e@),
{
    if is_lit(e, "wasm") || is_lit(e, "wat") {
        Some("icons/file-types/webassembly.svg")
    } else if is_lit(e, "svelte") {
        Some("icons/file-types/svelte.svg")
    } else if is_lit(e, "vue") {
        Some("icons/file-types/vue.svg")
    } else if is_lit(e, "tf") || is_lit(e, "tfvars") {
        Some("icons/file-types/terraform.svg")
    } else if is_lit(e, "graphql") || is_lit(e, "gql") {
        Some("icons/file-types/graphql.svg")
    } else if is_lit(e, "lua") {
        Some("icons/file-types/lua.svg")
    } else if is_lit(e, "dart") {
        Some("icons/file-types/dart.svg")
    } else if is_lit(e, "astro") {
        Some("icons/file-types/astro.svg")
    } else if is_lit(e, "coffee") || is_lit(e, "cson") {
        Some("icons/file-types/coffee.svg")
    } else if is_lit(e, "cr") {
        Some("icons/file-types/crystal.svg")
    } else if is_lit(e, "ex") || is_lit(e, "exs") {
        Some("icons/file-types/elixir.svg")
    } else if is_lit(e, "elm") {
        Some("icons/file-types/elm.svg")
    } else if is_lit(e, "erl") || is_lit(e, "hrl") {
        Some("icons/file-types/erlang.svg")
    } else if is_lit(e, "clj")
        || is_lit(e, "cljs")
        || is_lit(e, "cljc")
        || is_lit(e, "edn") {
        Some("icons/file-types/clojure.svg")
    } else if is_lit(e, "hs") || is_lit(e, "lhs") {
        Some("icons/file-types/haskell.svg")
    } else if is_lit(e, "hx") || is_lit(e, "hxml") {
        Some("icons/file-types/haxe.svg")
    } else if is_lit(e, "jinja")
        || is_lit(e, "jinja2")
        || is_lit(e, "j2") {
        Some("icons/file-types/jinja.svg")
    } else if is_lit(e, "jl") {
        Some("icons/file-types/julia.svg")
    } else if is_lit(e, "ml") || is_lit(e, "mli") {
        Some("icons/file-types/ocaml.svg")
    } else if is_lit(e, "pl") || is_lit(e, "pm") {
        Some("icons/file-types/perl.svg")
    } else if is_lit(e, "prisma") {
        Some("icons/file-types/prisma.svg")
    } else if is_lit(e, "pug") || is_lit(e, "jade") {
        Some("icons/file-types/pug.svg")
    } else if is_lit(e, "scala")
        || is_lit(e, "sbt")
        || is_lit(e, "sc") {
        Some("icons/file-types/scala.svg")
    } else if is_lit(e, "sol") {
        Some("icons/file-types/solidity.svg")
    } else if is_lit(e, "tex")
        || is_lit(e, "sty")
        || is_lit(e, "cls") {
        Some("icons/file-types/tex.svg")
    } else if is_lit(e, "xaml") {
        Some("icons/file-types/xaml.svg")
    } else if is_lit(e, "zig") {
        Some("icons/file-types/zig.svg")
    } else if is_lit(e, "nix") {
        Some("icons/file-types/nix.svg")
    } else if is_lit(e, "proto") {
        Some("icons/file-types/proto.svg")
    } else if is_lit(e, "diff") || is_lit(e, "patch") {
        Some("icons/file-types/diff.svg")
    } else if is_lit(e, "exe")
        || is_lit(e, "dll")
        || is_lit(e, "so")
        || is_lit(e, "dylib") {
        Some("icons/file-types/exe.svg")
    } else if is_lit(e, "lock") {
        Some("icons/file-types/lock.svg")
    } else {
        None
    }
}


/// The icon a lower-cased name earns by its own name rules.
pub open spec fn named_icon_of(n: Seq<u8>) -> Option<Seq<char>> {
    match named_icon_a(n) {
        Some(i) => Some(i),
        None => match named_icon_b(n) {
            Some(i) => Some(i),
            None => named_icon_c(n),
        },
    }
}

/// The icon for a lower-cased extension, the generic file icon for any other.
pub open spec fn extension_icon_of(e: Seq<u8>) -> Seq<char> {
    match extension_icon_a(e) {
        Some(i) => i,
        None => match extension_icon_b(e) {
            Some(i) => i,
            None => "icons/file-types/file.svg"@,
        },
    }
}

/// The icon for a file name given as bytes, ignoring ASCII case: its name
/// rules first, then its extension.
pub open spec fn icon_for_name_bytes(b: Seq<u8>) -> Seq<char> {
    let n = lower_bytes(b);
    match named_icon_of(n) {
        Some(i) => i,
        None => extension_icon_of(
            match path_extension_of(n) {
                Some(e) => e,
                None => seq![],
            },
        ),
    }
}

/// The icon for a file name.
pub open spec fn icon_for_name(name: Seq<char>) -> Seq<char> {
    icon_for_name_bytes(utf8(name))
}

/// The icon for a path: that of its file name, or of the whole path when it
/// has none.
pub open spec fn icon_for_path(path: Seq<char>) -> Seq<char> {
    let b = utf8(path);
    icon_for_name_bytes(
        match file_name_of(b) {
            Some(f) => f,
            None => b,
        },
    )
}

/// The file name of a path (`Path::file_name`).
pub fn path_file_name(path: &str) -> (r: Option<&str>)
    ensures
        match r {
            Some(n) => file_name_of(utf8(path@)) == Some(utf8(n@)),
            None => file_name_of(utf8(path@)) is None,
        },
{
    let b = path.as_bytes();
    match file_name_range(b) {
        Some((s, e)) => {
            proof {
                let u = utf8(path@);
                if s > 0 {
                    lemma_boundary_after_ascii(u, s - 1);
                } else {
                    is_char_boundary_start_end_of_seq(u);
                }
                if e < u.len() {
                    lemma_boundary_at_ascii(u, e as int);
                } else {
                    is_char_boundary_start_end_of_seq(u);
                }
            }
            Some(substr(path, s, e))
        },
        None => None,
    }
}

/// The bytes `b[from..to]` as a vector.
fn copy_range(b: &[u8], from: usize, to: usize) -> (r: Vec<u8>)
    requires
        from <= to <= b@.len(),
    ensures
        r@ == b@.subrange(from as int, to as int),
{
    vstd::slice::slice_to_vec(vstd::slice::slice_subrange(b, from, to))
}

/// The extension of the path `b`, empty when it has none.
fn path_extension(b: &[u8]) -> (r: Vec<u8>)
    ensures
        r@ == match path_extension_of(b@) {
            Some(e) => e,
            None => seq![],
        },
{
    match file_name_range(b) {
        Some((s, e)) => match extension_start(b, s, e) {
            Some(k) => copy_range(b, k, e),
            None => Vec::new(),
        },
        None => Vec::new(),
    }
}

fn icon_for_bytes(b: &[u8]) -> (r: &'static str)
    ensures
        r@ == icon_for_name_bytes(b@),
{
    let n = lowercase_bytes(b);
    let named = match named_icon_a_exec(n.as_slice()) {
        Some(i) => Some(i),
        None => match named_icon_b_exec(n.as_slice()) {
            Some(i) => Some(i),
            None => named_icon_c_exec(n.as_slice()),
        },
    };
    if let Some(i) = named {
        return i;
    }
    let ext = path_extension(n.as_slice());
    match extension_icon_a_exec(ext.as_slice()) {
        Some(i) => i,
        None => match extension_icon_b_exec(ext.as_slice()) {
            Some(i) => i,
            None => "icons/file-types/file.svg",
        },
    }
}

/// Lowercasing twice is lowercasing once.
pub proof fn lemma_lower_bytes_idempotent(b: Seq<u8>)
    ensures
        lower_bytes(lower_bytes(b)) == lower_bytes(b),
{
    assert(lower_bytes(lower_bytes(b)) =~= lower_bytes(b));
}

/// A file's icon ignores ASCII case: a name and its ASCII lowercase form
/// (`to_ascii_lowercase`, byte by byte) get the same icon.
pub proof fn law_icons_ignore_case(name: Seq<u8>)
    ensures
        icon_for_name_bytes(lower_bytes(name)) == icon_for_name_bytes(name),
{
    lemma_lower_bytes_idempotent(name);
}

/// An icon path of the file-type set: `icons/file-types/<name>.svg`.
pub open spec fn is_file_type_icon(s: Seq<char>) -> bool {
    let p = "icons/file-types/"@;
    let q = ".svg"@;
    &&& p.len() + q.len() <= s.len()
    &&& s.subrange(0, p.len() as int) == p
    &&& s.subrange(s.len() - q.len(), s.len() as int) == q
}

proof fn lemma_named_icon_a_literals()
    ensures
        is_file_type_icon("icons/file-types/bun.svg"@),
        is_file_type_icon("icons/file-types/certificate.svg"@),
        is_file_type_icon("icons/file-types/cmake.svg"@),
        is_file_type_icon("icons/file-types/docker.svg"@),
        is_file_type_icon("icons/file-types/editorconfig.svg"@),
        is_file_type_icon("icons/file-types/git.svg"@),
        is_file_type_icon("icons/file-types/go.svg"@),
        is_file_type_icon("icons/file-types/javascript.svg"@),
        is_file_type_icon("icons/file-types/makefile.svg"@),
        is_file_type_icon("icons/file-types/nodejs.svg"@),
        is_file_type_icon("icons/file-types/npm.svg"@),
        is_file_type_icon("icons/file-types/pnpm.svg"@),
        is_file_type_icon("icons/file-types/python.svg"@),
        is_file_type_icon("icons/file-types/readme.svg"@),
        is_file_type_icon("icons/file-types/rust.svg"@),
        is_file_type_icon("icons/file-types/typescript.svg"@),
        is_file_type_icon("icons/file-types/yarn.svg"@),
{
    assert(is_file_type_icon("icons/file-types/bun.svg"@)) by {
        reveal_strlit("icons/file-types/bun.svg");
        reveal_strlit("icons/file-types/");
        reveal_strlit(".svg");
        assert("icons/file-types/bun.svg"@.subrange(0, 17) =~= "icons/file-types/"@);
        assert("icons/file-types/bun.svg"@.subrange(20, 24) =~= ".svg"@);
    }
    assert(is_file_type_icon("icons/file-types/certificate.svg"@)) by {
        reveal_strlit("icons/file-types/certificate.svg");
        reveal_strlit("icons/file-types/");
        reveal_strlit(".svg");
        assert("icons/file-types/certificate.svg"@.subrange(0, 17) =~= "icons/file-types/"@);
        assert("icons/file-types/certificate.svg"@.subrange(28, 32) =~= ".svg"@);
    }
    assert(is_file_type_icon("icons/file-types/cmake.svg"@)) by {
        reveal_strlit("icons/file-types/cmake.svg");
        reveal_strlit("icons/file-types/");
        reveal_strlit(".svg");
        assert("icons/file-types/cmake.svg"@.subrange(0, 17) =~= "icons/file-types/"@);
        assert("icons/file-types/cmake.svg"@.subrange(22, 26) =~= ".svg"@);
    }
    assert(is_file_type_icon("icons/file-types/docker.svg"@)) by {
        reveal_strlit("icons/file-types/docker.svg");
        reveal_strlit("icons/file-types/");
        reveal_strlit(".svg");
        assert("icons/file-types/docker.svg"@.subrange(0, 17) =~= "icons/file-types/"@);
        assert("icons/file-types/docker.svg"@.subrange(23, 27) =~= ".svg"@);
    }
    assert(is_file_type_icon("icons/file-types/editorconfig.svg"@)) by {
        reveal_strlit("icons/file-types/editorconfig.svg");
        reveal_strlit("icons/file-types/");
        reveal_strlit(".svg");
        assert("icons/file-types/editorconfig.svg"@.subrange(0, 17) =~= "icons/file-types/"@);
        assert("icons/file-types/editorconfig.svg"@.subrange(29, 33) =~= ".svg"@);
    }
    assert(is_file_type_icon("icons/file-types/git.svg"@)) by {
        reveal_strlit("icons/file-types/git.svg");
        reveal_strlit("icons/file-types/");
        reveal_strlit(".svg");
        assert("icons/file-types/git.svg"@.subrange(0, 17) =~= "icons/file-types/"@);
        assert("icons/file-types/git.svg"@.subrange(20, 24) =~= ".svg"@);
    }
    assert(is_file_type_icon("icons/file-types/go.svg"@)) by {
        reveal_strlit("icons/file-types/go.svg");
        reveal_strlit("icons/file-types/");
        reveal_strlit(".svg");
        assert("icons/file-types/go.svg"@.subrange(0, 17) =~= "icons/file-types/"@);
        assert("icons/file-types/go.svg"@.subrange(19, 23) =~= ".svg"@);
    }
    assert(is_file_type_icon("icons/file-types/javascript.svg"@)) by {
        reveal_strlit("icons/file-types/javascript.svg");
        reveal_strlit("icons/file-types/");
        reveal_strlit(".svg");
        assert("icons/file-types/javascript.svg"@.subrange(0, 17) =~= "icons/file-types/"@);
        assert("icons/file-types/javascript.svg"@.subrange(27, 31) =~= ".svg"@);
    }
    assert(is_file_type_icon("icons/file-types/makefile.svg"@)) by {
        reveal_strlit("icons/file-types/makefile.svg");
        reveal_strlit("icons/file-types/");
        reveal_strlit(".svg");
        assert("icons/file-types/makefile.svg"@.subrange(0, 17) =~= "icons/file-types/"@);
        assert("icons/file-types/makefile.svg"@.subrange(25, 29) =~= ".svg"@);
    }
    assert(is_file_type_icon("icons/file-types/nodejs.svg"@)) by {
        reveal_strlit("icons/file-types/nodejs.svg");
        reveal_strlit("icons/file-types/");
        reveal_strlit(".svg");
        assert("icons/file-types/nodejs.svg"@.subrange(0, 17) =~= "icons/file-types/"@);
        assert("icons/file-types/nodejs.svg"@.subrange(23, 27) =~= ".svg"@);
    }
    assert(is_file_type_icon("icons/file-types/npm.svg"@)) by {
        reveal_strlit("icons/file-types/npm.svg");
        reveal_strlit("icons/file-types/");
        reveal_strlit(".svg");
        assert("icons/file-types/npm.svg"@.subrange(0, 17) =~= "icons/file-types/"@);
        assert("icons/file-types/npm.svg"@.subrange(20, 24) =~= ".svg"@);
    }
    assert(is_file_type_icon("icons/file-types/pnpm.svg"@)) by {
        reveal_strlit("icons/file-types/pnpm.svg");
        reveal_strlit("icons/file-types/");
        reveal_strlit(".svg");
        assert("icons/file-types/pnpm.svg"@.subrange(0, 17) =~= "icons/file-types/"@);
        assert("icons/file-types/pnpm.svg"@.subrange(21, 25) =~= ".svg"@);
    }
    assert(is_file_type_icon("icons/file-types/python.svg"@)) by {
        reveal_strlit("icons/file-types/python.svg");
        reveal_strlit("icons/file-types/");
        reveal_strlit(".svg");
        assert("icons/file-types/python.svg"@.subrange(0, 17) =~= "icons/file-types/"@);
        assert("icons/file-types/python.svg"@.subrange(23, 27) =~= ".svg"@);
    }
    assert(is_file_type_icon("icons/file-types/readme.svg"@)) by {
        reveal_strlit("icons/file-types/readme.svg");
        reveal_strlit("icons/file-types/");
        reveal_strlit(".svg");
        assert("icons/file-types/readme.svg"@.subrange(0, 17) =~= "icons/file-types/"@);
        assert("icons/file-types/readme.svg"@.subrange(23, 27) =~= ".svg"@);
    }
    assert(is_file_type_icon("icons/file-types/rust.svg"@)) by {
        reveal_strlit("icons/file-types/rust.svg");
        reveal_strlit("icons/file-types/");
        reveal_strlit(".svg");
        assert("icons/file-types/rust.svg"@.subrange(0, 17) =~= "icons/file-types/"@);
        assert("icons/file-types/rust.svg"@.subrange(21, 25) =~= ".svg"@);
    }
    assert(is_file_type_icon("icons/file-types/typescript.svg"@)) by {
        reveal_strlit("icons/file-types/typescript.svg");
        reveal_strlit("icons/file-types/");
        reveal_strlit(".svg");
        assert("icons/file-types/typescript.svg"@.subrange(0, 17) =~= "icons/file-types/"@);
        assert("icons/file-types/typescript.svg"@.subrange(27, 31) =~= ".svg"@);
    }
    assert(is_file_type_icon("icons/file-types/yarn.svg"@)) by {
        reveal_strlit("icons/file-types/yarn.svg");
        reveal_strlit("icons/file-types/");
        reveal_strlit(".svg");
        assert("icons/file-types/yarn.svg"@.subrange(0, 17) =~= "icons/file-types/"@);
        assert("icons/file-types/yarn.svg"@.subrange(21, 25) =~= ".svg"@);
    }
}

proof fn lemma_named_icon_a_paths(n: Seq<u8>)
    ensures
        named_icon_a(n) matches Some(s) ==> is_file_type_icon(s),
{
    lemma_named_icon_a_literals();
}

proof fn lemma_named_icon_b_literals()
    ensures
        is_file_type_icon("icons/file-types/angular.svg"@),
        is_file_type_icon("icons/file-types/astro.svg"@),
        is_file_type_icon("icons/file-types/babel.svg"@),
        is_file_type_icon("icons/file-types/biome.svg"@),
        is_file_type_icon("icons/file-types/eslint.svg"@),
        is_file_type_icon("icons/file-types/nest.svg"@),
        is_file_type_icon("icons/file-types/next.svg"@),
        is_file_type_icon("icons/file-types/nuxt.svg"@),
        is_file_type_icon("icons/file-types/prettier.svg"@),
        is_file_type_icon("icons/file-types/rollup.svg"@),
        is_file_type_icon("icons/file-types/settings.svg"@),
        is_file_type_icon("icons/file-types/stylelint.svg"@),
        is_file_type_icon("icons/file-types/tailwindcss.svg"@),
        is_file_type_icon("icons/file-types/vite.svg"@),
        is_file_type_icon("icons/file-types/vitest.svg"@),
        is_file_type_icon("icons/file-types/webpack.svg"@),
{
    assert(is_file_type_icon("icons/file-types/angular.svg"@)) by {
        reveal_strlit("icons/file-types/angular.svg");
        reveal_strlit("icons/file-types/");
        reveal_strlit(".svg");
        assert("icons/file-types/angular.svg"@.subrange(0, 17) =~= "icons/file-types/"@);
        assert("icons/file-types/angular.svg"@.subrange(24, 28) =~= ".svg"@);
    }
    assert(is_file_type_icon("icons/file-types/astro.svg"@)) by {
        reveal_strlit("icons/file-types/astro.svg");
        reveal_strlit("icons/file-types/");
        reveal_strlit(".svg");
        assert("icons/file-types/astro.svg"@.subrange(0, 17) =~= "icons/file-types/"@);
        assert("icons/file-types/astro.svg"@.subrange(22, 26) =~= ".svg"@);
    }
    assert(is_file_type_icon("icons/file-types/babel.svg"@)) by {
        reveal_strlit("icons/file-types/babel.svg");
        reveal_strlit("icons/file-types/");
        reveal_strlit(".svg");
        assert("icons/file-types/babel.svg"@.subrange(0, 17) =~= "icons/file-types/"@);
        assert("icons/file-types/babel.svg"@.subrange(22, 26) =~= ".svg"@);
    }
    assert(is_file_type_icon("icons/file-types/biome.svg"@)) by {
        reveal_strlit("icons/file-types/biome.svg");
        reveal_strlit("icons/file-types/");
        reveal_strlit(".svg");
        assert("icons/file-types/biome.svg"@.subrange(0, 17) =~= "icons/file-types/"@);
        assert("icons/file-types/biome.svg"@.subrange(22, 26) =~= ".svg"@);
    }
    assert(is_file_type_icon("icons/file-types/eslint.svg"@)) by {
        reveal_strlit("icons/file-types/eslint.svg");
        reveal_strlit("icons/file-types/");
        reveal_strlit(".svg");
        assert("icons/file-types/eslint.svg"@.subrange(0, 17) =~= "icons/file-types/"@);
        assert("icons/file-types/eslint.svg"@.subrange(23, 27) =~= ".svg"@);
    }
    assert(is_file_type_icon("icons/file-types/nest.svg"@)) by {
        reveal_strlit("icons/file-types/nest.svg");
        reveal_strlit("icons/file-types/");
        reveal_strlit(".svg");
        assert("icons/file-types/nest.svg"@.subrange(0, 17) =~= "icons/file-types/"@);
        assert("icons/file-types/nest.svg"@.subrange(21, 25) =~= ".svg"@);
    }
    assert(is_file_type_icon("icons/file-types/next.svg"@)) by {
        reveal_strlit("icons/file-types/next.svg");
        reveal_strlit("icons/file-types/");
        reveal_strlit(".svg");
        assert("icons/file-types/next.svg"@.subrange(0, 17) =~= "icons/file-types/"@);
        assert("icons/file-types/next.svg"@.subrange(21, 25) =~= ".svg"@);
    }
    assert(is_file_type_icon("icons/file-types/nuxt.svg"@)) by {
        reveal_strlit("icons/file-types/nuxt.svg");
        reveal_strlit("icons/file-types/");
        reveal_strlit(".svg");
        assert("icons/file-types/nuxt.svg"@.subrange(0, 17) =~= "icons/file-types/"@);
        assert("icons/file-types/nuxt.svg"@.subrange(21, 25) =~= ".svg"@);
    }
    assert(is_file_type_icon("icons/file-types/prettier.svg"@)) by {
        reveal_strlit("icons/file-types/prettier.svg");
        reveal_strlit("icons/file-types/");
        reveal_strlit(".svg");
        assert("icons/file-types/prettier.svg"@.subrange(0, 17) =~= "icons/file-types/"@);
        assert("icons/file-types/prettier.svg"@.subrange(25, 29) =~= ".svg"@);
    }
    assert(is_file_type_icon("icons/file-types/rollup.svg"@)) by {
        reveal_strlit("icons/file-types/rollup.svg");
        reveal_strlit("icons/file-types/");
        reveal_strlit(".svg");
        assert("icons/file-types/rollup.svg"@.subrange(0, 17) =~= "icons/file-types/"@);
        assert("icons/file-types/rollup.svg"@.subrange(23, 27) =~= ".svg"@);
    }
    assert(is_file_type_icon("icons/file-types/settings.svg"@)) by {
        reveal_strlit("icons/file-types/settings.svg");
        reveal_strlit("icons/file-types/");
        reveal_strlit(".svg");
        assert("icons/file-types/settings.svg"@.subrange(0, 17) =~= "icons/file-types/"@);
        assert("icons/file-types/settings.svg"@.subrange(25, 29) =~= ".svg"@);
    }
    assert(is_file_type_icon("icons/file-types/stylelint.svg"@)) by {
        reveal_strlit("icons/file-types/stylelint.svg");
        reveal_strlit("icons/file-types/");
        reveal_strlit(".svg");
        assert("icons/file-types/stylelint.svg"@.subrange(0, 17) =~= "icons/file-types/"@);
        assert("icons/file-types/stylelint.svg"@.subrange(26, 30) =~= ".svg"@);
    }
    assert(is_file_type_icon("icons/file-types/tailwindcss.svg"@)) by {
        reveal_strlit("icons/file-types/tailwindcss.svg");
        reveal_strlit("icons/file-types/");
        reveal_strlit(".svg");
        assert("icons/file-types/tailwindcss.svg"@.subrange(0, 17) =~= "icons/file-types/"@);
        assert("icons/file-types/tailwindcss.svg"@.subrange(28, 32) =~= ".svg"@);
    }
    assert(is_file_type_icon("icons/file-types/vite.svg"@)) by {
        reveal_strlit("icons/file-types/vite.svg");
        reveal_strlit("icons/file-types/");
        reveal_strlit(".svg");
        assert("icons/file-types/vite.svg"@.subrange(0, 17) =~= "icons/file-types/"@);
        assert("icons/file-types/vite.svg"@.subrange(21, 25) =~= ".svg"@);
    }
    assert(is_file_type_icon("icons/file-types/vitest.svg"@)) by {
        reveal_strlit("icons/file-types/vitest.svg");
        reveal_strlit("icons/file-types/");
        reveal_strlit(".svg");
        assert("icons/file-types/vitest.svg"@.subrange(0, 17) =~= "icons/file-types/"@);
        assert("icons/file-types/vitest.svg"@.subrange(23, 27) =~= ".svg"@);
    }
    assert(is_file_type_icon("icons/file-types/webpack.svg"@)) by {
        reveal_strlit("icons/file-types/webpack.svg");
        reveal_strlit("icons/file-types/");
        reveal_strlit(".svg");
        assert("icons/file-types/webpack.svg"@.subrange(0, 17) =~= "icons/file-types/"@);
        assert("icons/file-types/webpack.svg"@.subrange(24, 28) =~= ".svg"@);
    }
}

proof fn lemma_named_icon_b_paths(n: Seq<u8>)
    ensures
        named_icon_b(n) matches Some(s) ==> is_file_type_icon(s),
{
    lemma_named_icon_b_literals();
}

proof fn lemma_named_icon_c_literals()
    ensures
        is_file_type_icon("icons/file-types/deno.svg"@),
        is_file_type_icon("icons/file-types/firebase.svg"@),
        is_file_type_icon("icons/file-types/gitlab.svg"@),
        is_file_type_icon("icons/file-types/gradle.svg"@),
        is_file_type_icon("icons/file-types/helm.svg"@),
        is_file_type_icon("icons/file-types/java.svg"@),
        is_file_type_icon("icons/file-types/kubernetes.svg"@),
        is_file_type_icon("icons/file-types/nginx.svg"@),
        is_file_type_icon("icons/file-types/nodejs.svg"@),
        is_file_type_icon("icons/file-types/prisma.svg"@),
        is_file_type_icon("icons/file-types/ruby.svg"@),
        is_file_type_icon("icons/file-types/storybook.svg"@),
        is_file_type_icon("icons/file-types/supabase.svg"@),
        is_file_type_icon("icons/file-types/svelte.svg"@),
        is_file_type_icon("icons/file-types/turborepo.svg"@),
        is_file_type_icon("icons/file-types/vue.svg"@),
{
    assert(is_file_type_icon("icons/file-types/deno.svg"@)) by {
        reveal_strlit("icons/file-types/deno.svg");
        reveal_strlit("icons/file-types/");
        reveal_strlit(".svg");
        assert("icons/file-types/deno.svg"@.subrange(0, 17) =~= "icons/file-types/"@);
        assert("icons/file-types/deno.svg"@.subrange(21, 25) =~= ".svg"@);
    }
    assert(is_file_type_icon("icons/file-types/firebase.svg"@)) by {
        reveal_strlit("icons/file-types/firebase.svg");
        reveal_strlit("icons/file-types/");
        reveal_strlit(".svg");
        assert("icons/file-types/firebase.svg"@.subrange(0, 17) =~= "icons/file-types/"@);
        assert("icons/file-types/firebase.svg"@.subrange(25, 29) =~= ".svg"@);
    }
    assert(is_file_type_icon("icons/file-types/gitlab.svg"@)) by {
        reveal_strlit("icons/file-types/gitlab.svg");
        reveal_strlit("icons/file-types/");
        reveal_strlit(".svg");
        assert("icons/file-types/gitlab.svg"@.subrange(0, 17) =~= "icons/file-types/"@);
        assert("icons/file-types/gitlab.svg"@.subrange(23, 27) =~= ".svg"@);
    }
    assert(is_file_type_icon("icons/file-types/gradle.svg"@)) by {
        reveal_strlit("icons/file-types/gradle.svg");
        reveal_strlit("icons/file-types/");
        reveal_strlit(".svg");
        assert("icons/file-types/gradle.svg"@.subrange(0, 17) =~= "icons/file-types/"@);
        assert("icons/file-types/gradle.svg"@.subrange(23, 27) =~= ".svg"@);
    }
    assert(is_file_type_icon("icons/file-types/helm.svg"@)) by {
        reveal_strlit("icons/file-types/helm.svg");
        reveal_strlit("icons/file-types/");
        reveal_strlit(".svg");
        assert("icons/file-types/helm.svg"@.subrange(0, 17) =~= "icons/file-types/"@);
        assert("icons/file-types/helm.svg"@.subrange(21, 25) =~= ".svg"@);
    }
    assert(is_file_type_icon("icons/file-types/java.svg"@)) by {
        reveal_strlit("icons/file-types/java.svg");
        reveal_strlit("icons/file-types/");
        reveal_strlit(".svg");
        assert("icons/file-types/java.svg"@.subrange(0, 17) =~= "icons/file-types/"@);
        assert("icons/file-types/java.svg"@.subrange(21, 25) =~= ".svg"@);
    }
    assert(is_file_type_icon("icons/file-types/kubernetes.svg"@)) by {
        reveal_strlit("icons/file-types/kubernetes.svg");
        reveal_strlit("icons/file-types/");
        reveal_strlit(".svg");
        assert("icons/file-types/kubernetes.svg"@.subrange(0, 17) =~= "icons/file-types/"@);
        assert("icons/file-types/kubernetes.svg"@.subrange(27, 31) =~= ".svg"@);
    }
    assert(is_file_type_icon("icons/file-types/nginx.svg"@)) by {
        reveal_strlit("icons/file-types/nginx.svg");
        reveal_strlit("icons/file-types/");
        reveal_strlit(".svg");
        assert("icons/file-types/nginx.svg"@.subrange(0, 17) =~= "icons/file-types/"@);
        assert("icons/file-types/nginx.svg"@.subrange(22, 26) =~= ".svg"@);
    }
    assert(is_file_type_icon("icons/file-types/nodejs.svg"@)) by {
        reveal_strlit("icons/file-types/nodejs.svg");
        reveal_strlit("icons/file-types/");
        reveal_strlit(".svg");
        assert("icons/file-types/nodejs.svg"@.subrange(0, 17) =~= "icons/file-types/"@);
        assert("icons/file-types/nodejs.svg"@.subrange(23, 27) =~= ".svg"@);
    }
    assert(is_file_type_icon("icons/file-types/prisma.svg"@)) by {
        reveal_strlit("icons/file-types/prisma.svg");
        reveal_strlit("icons/file-types/");
        reveal_strlit(".svg");
        assert("icons/file-types/prisma.svg"@.subrange(0, 17) =~= "icons/file-types/"@);
        assert("icons/file-types/prisma.svg"@.subrange(23, 27) =~= ".svg"@);
    }
    assert(is_file_type_icon("icons/file-types/ruby.svg"@)) by {
        reveal_strlit("icons/file-types/ruby.svg");
        reveal_strlit("icons/file-types/");
        reveal_strlit(".svg");
        assert("icons/file-types/ruby.svg"@.subrange(0, 17) =~= "icons/file-types/"@);
        assert("icons/file-types/ruby.svg"@.subrange(21, 25) =~= ".svg"@);
    }
    assert(is_file_type_icon("icons/file-types/storybook.svg"@)) by {
        reveal_strlit("icons/file-types/storybook.svg");
        reveal_strlit("icons/file-types/");
        reveal_strlit(".svg");
        assert("icons/file-types/storybook.svg"@.subrange(0, 17) =~= "icons/file-types/"@);
        assert("icons/file-types/storybook.svg"@.subrange(26, 30) =~= ".svg"@);
    }
    assert(is_file_type_icon("icons/file-types/supabase.svg"@)) by {
        reveal_strlit("icons/file-types/supabase.svg");
        reveal_strlit("icons/file-types/");
        reveal_strlit(".svg");
        assert("icons/file-types/supabase.svg"@.subrange(0, 17) =~= "icons/file-types/"@);
        assert("icons/file-types/supabase.svg"@.subrange(25, 29) =~= ".svg"@);
    }
    assert(is_file_type_icon("icons/file-types/svelte.svg"@)) by {
        reveal_strlit("icons/file-types/svelte.svg");
        reveal_strlit("icons/file-types/");
        reveal_strlit(".svg");
        assert("icons/file-types/svelte.svg"@.subrange(0, 17) =~= "icons/file-types/"@);
        assert("icons/file-types/svelte.svg"@.subrange(23, 27) =~= ".svg"@);
    }
    assert(is_file_type_icon("icons/file-types/turborepo.svg"@)) by {
        reveal_strlit("icons/file-types/turborepo.svg");
        reveal_strlit("icons/file-types/");
        reveal_strlit(".svg");
        assert("icons/file-types/turborepo.svg"@.subrange(0, 17) =~= "icons/file-types/"@);
        assert("icons/file-types/turborepo.svg"@.subrange(26, 30) =~= ".svg"@);
    }
    assert(is_file_type_icon("icons/file-types/vue.svg"@)) by {
        reveal_strlit("icons/file-types/vue.svg");
        reveal_strlit("icons/file-types/");
        reveal_strlit(".svg");
        assert("icons/file-types/vue.svg"@.subrange(0, 17) =~= "icons/file-types/"@);
        assert("icons/file-types/vue.svg"@.subrange(20, 24) =~= ".svg"@);
    }
}

proof fn lemma_named_icon_c_paths(n: Seq<u8>)
    ensures
        named_icon_c(n) matches Some(s) ==> is_file_type_icon(s),
{
    lemma_named_icon_c_literals();
}

proof fn lemma_extension_icon_a_literals()
    ensures
        is_file_type_icon("icons/file-types/audio.svg"@),
        is_file_type_icon("icons/file-types/c.svg"@),
        is_file_type_icon("icons/file-types/console.svg"@),
        is_file_type_icon("icons/file-types/cpp.svg"@),
        is_file_type_icon("icons/file-types/csharp.svg"@),
        is_file_type_icon("icons/file-types/css.svg"@),
        is_file_type_icon("icons/file-types/database.svg"@),
        is_file_type_icon("icons/file-types/go.svg"@),
        is_file_type_icon("icons/file-types/html.svg"@),
        is_file_type_icon("icons/file-types/image.svg"@),
        is_file_type_icon("icons/file-types/java.svg"@),
        is_file_type_icon("icons/file-types/javascript.svg"@),
        is_file_type_icon("icons/file-types/json.svg"@),
        is_file_type_icon("icons/file-types/kotlin.svg"@),
        is_file_type_icon("icons/file-types/markdown.svg"@),
        is_file_type_icon("icons/file-types/pdf.svg"@),
        is_file_type_icon("icons/file-types/php.svg"@),
        is_file_type_icon("icons/file-types/powershell.svg"@),
        is_file_type_icon("icons/file-types/python.svg"@),
        is_file_type_icon("icons/file-types/react.svg"@),
        is_file_type_icon("icons/file-types/ruby.svg"@),
        is_file_type_icon("icons/file-types/rust.svg"@),
        is_file_type_icon("icons/file-types/sass.svg"@),
        is_file_type_icon("icons/file-types/settings.svg"@),
        is_file_type_icon("icons/file-types/svg.svg"@),
        is_file_type_icon("icons/file-types/swift.svg"@),
        is_file_type_icon("icons/file-types/typescript.svg"@),
        is_file_type_icon("icons/file-types/video.svg"@),
        is_file_type_icon("icons/file-types/xml.svg"@),
        is_file_type_icon("icons/file-types/yaml.svg"@),
        is_file_type_icon("icons/file-types/zip.svg"@),
{
    assert(is_file_type_icon("icons/file-types/audio.svg"@)) by {
        reveal_strlit("icons/file-types/audio.svg");
        reveal_strlit("icons/file-types/");
        reveal_strlit(".svg");
        assert("icons/file-types/audio.svg"@.subrange(0, 17) =~= "icons/file-types/"@);
        assert("icons/file-types/audio.svg"@.subrange(22, 26) =~= ".svg"@);
    }
    assert(is_file_type_icon("icons/file-types/c.svg"@)) by {
        reveal_strlit("icons/file-types/c.svg");
        reveal_strlit("icons/file-types/");
        reveal_strlit(".svg");
        assert("icons/file-types/c.svg"@.subrange(0, 17) =~= "icons/file-types/"@);
        assert("icons/file-types/c.svg"@.subrange(18, 22) =~= ".svg"@);
    }
    assert(is_file_type_icon("icons/file-types/console.svg"@)) by {
        reveal_strlit("icons/file-types/console.svg");
        reveal_strlit("icons/file-types/");
        reveal_strlit(".svg");
        assert("icons/file-types/console.svg"@.subrange(0, 17) =~= "icons/file-types/"@);
        assert("icons/file-types/console.svg"@.subrange(24, 28) =~= ".svg"@);
    }
    assert(is_file_type_icon("icons/file-types/cpp.svg"@)) by {
        reveal_strlit("icons/file-types/cpp.svg");
        reveal_strlit("icons/file-types/");
        reveal_strlit(".svg");
        assert("icons/file-types/cpp.svg"@.subrange(0, 17) =~= "icons/file-types/"@);
        assert("icons/file-types/cpp.svg"@.subrange(20, 24) =~= ".svg"@);
    }
    assert(is_file_type_icon("icons/file-types/csharp.svg"@)) by {
        reveal_strlit("icons/file-types/csharp.svg");
        reveal_strlit("icons/file-types/");
        reveal_strlit(".svg");
        assert("icons/file-types/csharp.svg"@.subrange(0, 17) =~= "icons/file-types/"@);
        assert("icons/file-types/csharp.svg"@.subrange(23, 27) =~= ".svg"@);
    }
    assert(is_file_type_icon("icons/file-types/css.svg"@)) by {
        reveal_strlit("icons/file-types/css.svg");
        reveal_strlit("icons/file-types/");
        reveal_strlit(".svg");
        assert("icons/file-types/css.svg"@.subrange(0, 17) =~= "icons/file-types/"@);
        assert("icons/file-types/css.svg"@.subrange(20, 24) =~= ".svg"@);
    }
    assert(is_file_type_icon("icons/file-types/database.svg"@)) by {
        reveal_strlit("icons/file-types/database.svg");
        reveal_strlit("icons/file-types/");
        reveal_strlit(".svg");
        assert("icons/file-types/database.svg"@.subrange(0, 17) =~= "icons/file-types/"@);
        assert("icons/file-types/database.svg"@.subrange(25, 29) =~= ".svg"@);
    }
    assert(is_file_type_icon("icons/file-types/go.svg"@)) by {
        reveal_strlit("icons/file-types/go.svg");
        reveal_strlit("icons/file-types/");
        reveal_strlit(".svg");
        assert("icons/file-types/go.svg"@.subrange(0, 17) =~= "icons/file-types/"@);
        assert("icons/file-types/go.svg"@.subrange(19, 23) =~= ".svg"@);
    }
    assert(is_file_type_icon("icons/file-types/html.svg"@)) by {
        reveal_strlit("icons/file-types/html.svg");
        reveal_strlit("icons/file-types/");
        reveal_strlit(".svg");
        assert("icons/file-types/html.svg"@.subrange(0, 17) =~= "icons/file-types/"@);
        assert("icons/file-types/html.svg"@.subrange(21, 25) =~= ".svg"@);
    }
    assert(is_file_type_icon("icons/file-types/image.svg"@)) by {
        reveal_strlit("icons/file-types/image.svg");
        reveal_strlit("icons/file-types/");
        reveal_strlit(".svg");
        assert("icons/file-types/image.svg"@.subrange(0, 17) =~= "icons/file-types/"@);
        assert("icons/file-types/image.svg"@.subrange(22, 26) =~= ".svg"@);
    }
    assert(is_file_type_icon("icons/file-types/java.svg"@)) by {
        reveal_strlit("icons/file-types/java.svg");
        reveal_strlit("icons/file-types/");
        reveal_strlit(".svg");
        assert("icons/file-types/java.svg"@.subrange(0, 17) =~= "icons/file-types/"@);
        assert("icons/file-types/java.svg"@.subrange(21, 25) =~= ".svg"@);
    }
    assert(is_file_type_icon("icons/file-types/javascript.svg"@)) by {
        reveal_strlit("icons/file-types/javascript.svg");
        reveal_strlit("icons/file-types/");
        reveal_strlit(".svg");
        assert("icons/file-types/javascript.svg"@.subrange(0, 17) =~= "icons/file-types/"@);
        assert("icons/file-types/javascript.svg"@.subrange(27, 31) =~= ".svg"@);
    }
    assert(is_file_type_icon("icons/file-types/json.svg"@)) by {
        reveal_strlit("icons/file-types/json.svg");
        reveal_strlit("icons/file-types/");
        reveal_strlit(".svg");
        assert("icons/file-types/json.svg"@.subrange(0, 17) =~= "icons/file-types/"@);
        assert("icons/file-types/json.svg"@.subrange(21, 25) =~= ".svg"@);
    }
    assert(is_file_type_icon("icons/file-types/kotlin.svg"@)) by {
        reveal_strlit("icons/file-types/kotlin.svg");
        reveal_strlit("icons/file-types/");
        reveal_strlit(".svg");
        assert("icons/file-types/kotlin.svg"@.subrange(0, 17) =~= "icons/file-types/"@);
        assert("icons/file-types/kotlin.svg"@.subrange(23, 27) =~= ".svg"@);
    }
    assert(is_file_type_icon("icons/file-types/markdown.svg"@)) by {
        reveal_strlit("icons/file-types/markdown.svg");
        reveal_strlit("icons/file-types/");
        reveal_strlit(".svg");
        assert("icons/file-types/markdown.svg"@.subrange(0, 17) =~= "icons/file-types/"@);
        assert("icons/file-types/markdown.svg"@.subrange(25, 29) =~= ".svg"@);
    }
    assert(is_file_type_icon("icons/file-types/pdf.svg"@)) by {
        reveal_strlit("icons/file-types/pdf.svg");
        reveal_strlit("icons/file-types/");
        reveal_strlit(".svg");
        assert("icons/file-types/pdf.svg"@.subrange(0, 17) =~= "icons/file-types/"@);
        assert("icons/file-types/pdf.svg"@.subrange(20, 24) =~= ".svg"@);
    }
    assert(is_file_type_icon("icons/file-types/php.svg"@)) by {
        reveal_strlit("icons/file-types/php.svg");
        reveal_strlit("icons/file-types/");
        reveal_strlit(".svg");
        assert("icons/file-types/php.svg"@.subrange(0, 17) =~= "icons/file-types/"@);
        assert("icons/file-types/php.svg"@.subrange(20, 24) =~= ".svg"@);
    }
    assert(is_file_type_icon("icons/file-types/powershell.svg"@)) by {
        reveal_strlit("icons/file-types/powershell.svg");
        reveal_strlit("icons/file-types/");
        reveal_strlit(".svg");
        assert("icons/file-types/powershell.svg"@.subrange(0, 17) =~= "icons/file-types/"@);
        assert("icons/file-types/powershell.svg"@.subrange(27, 31) =~= ".svg"@);
    }
    assert(is_file_type_icon("icons/file-types/python.svg"@)) by {
        reveal_strlit("icons/file-types/python.svg");
        reveal_strlit("icons/file-types/");
        reveal_strlit(".svg");
        assert("icons/file-types/python.svg"@.subrange(0, 17) =~= "icons/file-types/"@);
        assert("icons/file-types/python.svg"@.subrange(23, 27) =~= ".svg"@);
    }
    assert(is_file_type_icon("icons/file-types/react.svg"@)) by {
        reveal_strlit("icons/file-types/react.svg");
        reveal_strlit("icons/file-types/");
        reveal_strlit(".svg");
        assert("icons/file-types/react.svg"@.subrange(0, 17) =~= "icons/file-types/"@);
        assert("icons/file-types/react.svg"@.subrange(22, 26) =~= ".svg"@);
    }
    assert(is_file_type_icon("icons/file-types/ruby.svg"@)) by {
        reveal_strlit("icons/file-types/ruby.svg");
        reveal_strlit("icons/file-types/");
        reveal_strlit(".svg");
        assert("icons/file-types/ruby.svg"@.subrange(0, 17) =~= "icons/file-types/"@);
        assert("icons/file-types/ruby.svg"@.subrange(21, 25) =~= ".svg"@);
    }
    assert(is_file_type_icon("icons/file-types/rust.svg"@)) by {
        reveal_strlit("icons/file-types/rust.svg");
        reveal_strlit("icons/file-types/");
        reveal_strlit(".svg");
        assert("icons/file-types/rust.svg"@.subrange(0, 17) =~= "icons/file-types/"@);
        assert("icons/file-types/rust.svg"@.subrange(21, 25) =~= ".svg"@);
    }
    assert(is_file_type_icon("icons/file-types/sass.svg"@)) by {
        reveal_strlit("icons/file-types/sass.svg");
        reveal_strlit("icons/file-types/");
        reveal_strlit(".svg");
        assert("icons/file-types/sass.svg"@.subrange(0, 17) =~= "icons/file-types/"@);
        assert("icons/file-types/sass.svg"@.subrange(21, 25) =~= ".svg"@);
    }
    assert(is_file_type_icon("icons/file-types/settings.svg"@)) by {
        reveal_strlit("icons/file-types/settings.svg");
        reveal_strlit("icons/file-types/");
        reveal_strlit(".svg");
        assert("icons/file-types/settings.svg"@.subrange(0, 17) =~= "icons/file-types/"@);
        assert("icons/file-types/settings.svg"@.subrange(25, 29) =~= ".svg"@);
    }
    assert(is_file_type_icon("icons/file-types/svg.svg"@)) by {
        reveal_strlit("icons/file-types/svg.svg");
        reveal_strlit("icons/file-types/");
        reveal_strlit(".svg");
        assert("icons/file-types/svg.svg"@.subrange(0, 17) =~= "icons/file-types/"@);
        assert("icons/file-types/svg.svg"@.subrange(20, 24) =~= ".svg"@);
    }
    assert(is_file_type_icon("icons/file-types/swift.svg"@)) by {
        reveal_strlit("icons/file-types/swift.svg");
        reveal_strlit("icons/file-types/");
        reveal_strlit(".svg");
        assert("icons/file-types/swift.svg"@.subrange(0, 17) =~= "icons/file-types/"@);
        assert("icons/file-types/swift.svg"@.subrange(22, 26) =~= ".svg"@);
    }
    assert(is_file_type_icon("icons/file-types/typescript.svg"@)) by {
        reveal_strlit("icons/file-types/typescript.svg");
        reveal_strlit("icons/file-types/");
        reveal_strlit(".svg");
        assert("icons/file-types/typescript.svg"@.subrange(0, 17) =~= "icons/file-types/"@);
        assert("icons/file-types/typescript.svg"@.subrange(27, 31) =~= ".svg"@);
    }
    assert(is_file_type_icon("icons/file-types/video.svg"@)) by {
        reveal_strlit("icons/file-types/video.svg");
        reveal_strlit("icons/file-types/");
        reveal_strlit(".svg");
        assert("icons/file-types/video.svg"@.subrange(0, 17) =~= "icons/file-types/"@);
        assert("icons/file-types/video.svg"@.subrange(22, 26) =~= ".svg"@);
    }
    assert(is_file_type_icon("icons/file-types/xml.svg"@)) by {
        reveal_strlit("icons/file-types/xml.svg");
        reveal_strlit("icons/file-types/");
        reveal_strlit(".svg");
        assert("icons/file-types/xml.svg"@.subrange(0, 17) =~= "icons/file-types/"@);
        assert("icons/file-types/xml.svg"@.subrange(20, 24) =~= ".svg"@);
    }
    assert(is_file_type_icon("icons/file-types/yaml.svg"@)) by {
        reveal_strlit("icons/file-types/yaml.svg");
        reveal_strlit("icons/file-types/");
        reveal_strlit(".svg");
        assert("icons/file-types/yaml.svg"@.subrange(0, 17) =~= "icons/file-types/"@);
        assert("icons/file-types/yaml.svg"@.subrange(21, 25) =~= ".svg"@);
    }
    assert(is_file_type_icon("icons/file-types/zip.svg"@)) by {
        reveal_strlit("icons/file-types/zip.svg");
        reveal_strlit("icons/file-types/");
        reveal_strlit(".svg");
        assert("icons/file-types/zip.svg"@.subrange(0, 17) =~= "icons/file-types/"@);
        assert("icons/file-types/zip.svg"@.subrange(20, 24) =~= ".svg"@);
    }
}

proof fn lemma_extension_icon_a_paths(e: Seq<u8>)
    ensures
        extension_icon_a(e) matches Some(s) ==> is_file_type_icon(s),
{
    lemma_extension_icon_a_literals();
}

proof fn lemma_extension_icon_b_literals()
    ensures
        is_file_type_icon("icons/file-types/astro.svg"@),
        is_file_type_icon("icons/file-types/clojure.svg"@),
        is_file_type_icon("icons/file-types/coffee.svg"@),
        is_file_type_icon("icons/file-types/crystal.svg"@),
        is_file_type_icon("icons/file-types/dart.svg"@),
        is_file_type_icon("icons/file-types/diff.svg"@),
        is_file_type_icon("icons/file-types/elixir.svg"@),
        is_file_type_icon("icons/file-types/elm.svg"@),
        is_file_type_icon("icons/file-types/erlang.svg"@),
        is_file_type_icon("icons/file-types/exe.svg"@),
        is_file_type_icon("icons/file-types/graphql.svg"@),
        is_file_type_icon("icons/file-types/haskell.svg"@),
        is_file_type_icon("icons/file-types/haxe.svg"@),
        is_file_type_icon("icons/file-types/jinja.svg"@),
        is_file_type_icon("icons/file-types/julia.svg"@),
        is_file_type_icon("icons/file-types/lock.svg"@),
        is_file_type_icon("icons/file-types/lua.svg"@),
        is_file_type_icon("icons/file-types/nix.svg"@),
        is_file_type_icon("icons/file-types/ocaml.svg"@),
        is_file_type_icon("icons/file-types/perl.svg"@),
        is_file_type_icon("icons/file-types/prisma.svg"@),
        is_file_type_icon("icons/file-types/proto.svg"@),
        is_file_type_icon("icons/file-types/pug.svg"@),
        is_file_type_icon("icons/file-types/scala.svg"@),
        is_file_type_icon("icons/file-types/solidity.svg"@),
        is_file_type_icon("icons/file-types/svelte.svg"@),
        is_file_type_icon("icons/file-types/terraform.svg"@),
        is_file_type_icon("icons/file-types/tex.svg"@),
        is_file_type_icon("icons/file-types/vue.svg"@),
        is_file_type_icon("icons/file-types/webassembly.svg"@),
        is_file_type_icon("icons/file-types/xaml.svg"@),
        is_file_type_icon("icons/file-types/zig.svg"@),
{
    assert(is_file_type_icon("icons/file-types/astro.svg"@)) by {
        reveal_strlit("icons/file-types/astro.svg");
        reveal_strlit("icons/file-types/");
        reveal_strlit(".svg");
        assert("icons/file-types/astro.svg"@.subrange(0, 17) =~= "icons/file-types/"@);
        assert("icons/file-types/astro.svg"@.subrange(22, 26) =~= ".svg"@);
    }
    assert(is_file_type_icon("icons/file-types/clojure.svg"@)) by {
        reveal_strlit("icons/file-types/clojure.svg");
        reveal_strlit("icons/file-types/");
        reveal_strlit(".svg");
        assert("icons/file-types/clojure.svg"@.subrange(0, 17) =~= "icons/file-types/"@);
        assert("icons/file-types/clojure.svg"@.subrange(24, 28) =~= ".svg"@);
    }
    assert(is_file_type_icon("icons/file-types/coffee.svg"@)) by {
        reveal_strlit("icons/file-types/coffee.svg");
        reveal_strlit("icons/file-types/");
        reveal_strlit(".svg");
        assert("icons/file-types/coffee.svg"@.subrange(0, 17) =~= "icons/file-types/"@);
        assert("icons/file-types/coffee.svg"@.subrange(23, 27) =~= ".svg"@);
    }
    assert(is_file_type_icon("icons/file-types/crystal.svg"@)) by {
        reveal_strlit("icons/file-types/crystal.svg");
        reveal_strlit("icons/file-types/");
        reveal_strlit(".svg");
        assert("icons/file-types/crystal.svg"@.subrange(0, 17) =~= "icons/file-types/"@);
        assert("icons/file-types/crystal.svg"@.subrange(24, 28) =~= ".svg"@);
    }
    assert(is_file_type_icon("icons/file-types/dart.svg"@)) by {
        reveal_strlit("icons/file-types/dart.svg");
        reveal_strlit("icons/file-types/");
        reveal_strlit(".svg");
        assert("icons/file-types/dart.svg"@.subrange(0, 17) =~= "icons/file-types/"@);
        assert("icons/file-types/dart.svg"@.subrange(21, 25) =~= ".svg"@);
    }
    assert(is_file_type_icon("icons/file-types/diff.svg"@)) by {
        reveal_strlit("icons/file-types/diff.svg");
        reveal_strlit("icons/file-types/");
        reveal_strlit(".svg");
        assert("icons/file-types/diff.svg"@.subrange(0, 17) =~= "icons/file-types/"@);
        assert("icons/file-types/diff.svg"@.subrange(21, 25) =~= ".svg"@);
    }
    assert(is_file_type_icon("icons/file-types/elixir.svg"@)) by {
        reveal_strlit("icons/file-types/elixir.svg");
        reveal_strlit("icons/file-types/");
        reveal_strlit(".svg");
        assert("icons/file-types/elixir.svg"@.subrange(0, 17) =~= "icons/file-types/"@);
        assert("icons/file-types/elixir.svg"@.subrange(23, 27) =~= ".svg"@);
    }
    assert(is_file_type_icon("icons/file-types/elm.svg"@)) by {
        reveal_strlit("icons/file-types/elm.svg");
        reveal_strlit("icons/file-types/");
        reveal_strlit(".svg");
        assert("icons/file-types/elm.svg"@.subrange(0, 17) =~= "icons/file-types/"@);
        assert("icons/file-types/elm.svg"@.subrange(20, 24) =~= ".svg"@);
    }
    assert(is_file_type_icon("icons/file-types/erlang.svg"@)) by {
        reveal_strlit("icons/file-types/erlang.svg");
        reveal_strlit("icons/file-types/");
        reveal_strlit(".svg");
        assert("icons/file-types/erlang.svg"@.subrange(0, 17) =~= "icons/file-types/"@);
        assert("icons/file-types/erlang.svg"@.subrange(23, 27) =~= ".svg"@);
    }
    assert(is_file_type_icon("icons/file-types/exe.svg"@)) by {
        reveal_strlit("icons/file-types/exe.svg");
        reveal_strlit("icons/file-types/");
        reveal_strlit(".svg");
        assert("icons/file-types/exe.svg"@.subrange(0, 17) =~= "icons/file-types/"@);
        assert("icons/file-types/exe.svg"@.subrange(20, 24) =~= ".svg"@);
    }
    assert(is_file_type_icon("icons/file-types/graphql.svg"@)) by {
        reveal_strlit("icons/file-types/graphql.svg");
        reveal_strlit("icons/file-types/");
        reveal_strlit(".svg");
        assert("icons/file-types/graphql.svg"@.subrange(0, 17) =~= "icons/file-types/"@);
        assert("icons/file-types/graphql.svg"@.subrange(24, 28) =~= ".svg"@);
    }
    assert(is_file_type_icon("icons/file-types/haskell.svg"@)) by {
        reveal_strlit("icons/file-types/haskell.svg");
        reveal_strlit("icons/file-types/");
        reveal_strlit(".svg");
        assert("icons/file-types/haskell.svg"@.subrange(0, 17) =~= "icons/file-types/"@);
        assert("icons/file-types/haskell.svg"@.subrange(24, 28) =~= ".svg"@);
    }
    assert(is_file_type_icon("icons/file-types/haxe.svg"@)) by {
        reveal_strlit("icons/file-types/haxe.svg");
        reveal_strlit("icons/file-types/");
        reveal_strlit(".svg");
        assert("icons/file-types/haxe.svg"@.subrange(0, 17) =~= "icons/file-types/"@);
        assert("icons/file-types/haxe.svg"@.subrange(21, 25) =~= ".svg"@);
    }
    assert(is_file_type_icon("icons/file-types/jinja.svg"@)) by {
        reveal_strlit("icons/file-types/jinja.svg");
        reveal_strlit("icons/file-types/");
        reveal_strlit(".svg");
        assert("icons/file-types/jinja.svg"@.subrange(0, 17) =~= "icons/file-types/"@);
        assert("icons/file-types/jinja.svg"@.subrange(22, 26) =~= ".svg"@);
    }
    assert(is_file_type_icon("icons/file-types/julia.svg"@)) by {
        reveal_strlit("icons/file-types/julia.svg");
        reveal_strlit("icons/file-types/");
        reveal_strlit(".svg");
        assert("icons/file-types/julia.svg"@.subrange(0, 17) =~= "icons/file-types/"@);
        assert("icons/file-types/julia.svg"@.subrange(22, 26) =~= ".svg"@);
    }
    assert(is_file_type_icon("icons/file-types/lock.svg"@)) by {
        reveal_strlit("icons/file-types/lock.svg");
        reveal_strlit("icons/file-types/");
        reveal_strlit(".svg");
        assert("icons/file-types/lock.svg"@.subrange(0, 17) =~= "icons/file-types/"@);
        assert("icons/file-types/lock.svg"@.subrange(21, 25) =~= ".svg"@);
    }
    assert(is_file_type_icon("icons/file-types/lua.svg"@)) by {
        reveal_strlit("icons/file-types/lua.svg");
        reveal_strlit("icons/file-types/");
        reveal_strlit(".svg");
        assert("icons/file-types/lua.svg"@.subrange(0, 17) =~= "icons/file-types/"@);
        assert("icons/file-types/lua.svg"@.subrange(20, 24) =~= ".svg"@);
    }
    assert(is_file_type_icon("icons/file-types/nix.svg"@)) by {
        reveal_strlit("icons/file-types/nix.svg");
        reveal_strlit("icons/file-types/");
        reveal_strlit(".svg");
        assert("icons/file-types/nix.svg"@.subrange(0, 17) =~= "icons/file-types/"@);
        assert("icons/file-types/nix.svg"@.subrange(20, 24) =~= ".svg"@);
    }
    assert(is_file_type_icon("icons/file-types/ocaml.svg"@)) by {
        reveal_strlit("icons/file-types/ocaml.svg");
        reveal_strlit("icons/file-types/");
        reveal_strlit(".svg");
        assert("icons/file-types/ocaml.svg"@.subrange(0, 17) =~= "icons/file-types/"@);
        assert("icons/file-types/ocaml.svg"@.subrange(22, 26) =~= ".svg"@);
    }
    assert(is_file_type_icon("icons/file-types/perl.svg"@)) by {
        reveal_strlit("icons/file-types/perl.svg");
        reveal_strlit("icons/file-types/");
        reveal_strlit(".svg");
        assert("icons/file-types/perl.svg"@.subrange(0, 17) =~= "icons/file-types/"@);
        assert("icons/file-types/perl.svg"@.subrange(21, 25) =~= ".svg"@);
    }
    assert(is_file_type_icon("icons/file-types/prisma.svg"@)) by {
        reveal_strlit("icons/file-types/prisma.svg");
        reveal_strlit("icons/file-types/");
        reveal_strlit(".svg");
        assert("icons/file-types/prisma.svg"@.subrange(0, 17) =~= "icons/file-types/"@);
        assert("icons/file-types/prisma.svg"@.subrange(23, 27) =~= ".svg"@);
    }
    assert(is_file_type_icon("icons/file-types/proto.svg"@)) by {
        reveal_strlit("icons/file-types/proto.svg");
        reveal_strlit("icons/file-types/");
        reveal_strlit(".svg");
        assert("icons/file-types/proto.svg"@.subrange(0, 17) =~= "icons/file-types/"@);
        assert("icons/file-types/proto.svg"@.subrange(22, 26) =~= ".svg"@);
    }
    assert(is_file_type_icon("icons/file-types/pug.svg"@)) by {
        reveal_strlit("icons/file-types/pug.svg");
        reveal_strlit("icons/file-types/");
        reveal_strlit(".svg");
        assert("icons/file-types/pug.svg"@.subrange(0, 17) =~= "icons/file-types/"@);
        assert("icons/file-types/pug.svg"@.subrange(20, 24) =~= ".svg"@);
    }
    assert(is_file_type_icon("icons/file-types/scala.svg"@)) by {
        reveal_strlit("icons/file-types/scala.svg");
        reveal_strlit("icons/file-types/");
        reveal_strlit(".svg");
        assert("icons/file-types/scala.svg"@.subrange(0, 17) =~= "icons/file-types/"@);
        assert("icons/file-types/scala.svg"@.subrange(22, 26) =~= ".svg"@);
    }
    assert(is_file_type_icon("icons/file-types/solidity.svg"@)) by {
        reveal_strlit("icons/file-types/solidity.svg");
        reveal_strlit("icons/file-types/");
        reveal_strlit(".svg");
        assert("icons/file-types/solidity.svg"@.subrange(0, 17) =~= "icons/file-types/"@);
        assert("icons/file-types/solidity.svg"@.subrange(25, 29) =~= ".svg"@);
    }
    assert(is_file_type_icon("icons/file-types/svelte.svg"@)) by {
        reveal_strlit("icons/file-types/svelte.svg");
        reveal_strlit("icons/file-types/");
        reveal_strlit(".svg");
        assert("icons/file-types/svelte.svg"@.subrange(0, 17) =~= "icons/file-types/"@);
        assert("icons/file-types/svelte.svg"@.subrange(23, 27) =~= ".svg"@);
    }
    assert(is_file_type_icon("icons/file-types/terraform.svg"@)) by {
        reveal_strlit("icons/file-types/terraform.svg");
        reveal_strlit("icons/file-types/");
        reveal_strlit(".svg");
        assert("icons/file-types/terraform.svg"@.subrange(0, 17) =~= "icons/file-types/"@);
        assert("icons/file-types/terraform.svg"@.subrange(26, 30) =~= ".svg"@);
    }
    assert(is_file_type_icon("icons/file-types/tex.svg"@)) by {
        reveal_strlit("icons/file-types/tex.svg");
        reveal_strlit("icons/file-types/");
        reveal_strlit(".svg");
        assert("icons/file-types/tex.svg"@.subrange(0, 17) =~= "icons/file-types/"@);
        assert("icons/file-types/tex.svg"@.subrange(20, 24) =~= ".svg"@);
    }
    assert(is_file_type_icon("icons/file-types/vue.svg"@)) by {
        reveal_strlit("icons/file-types/vue.svg");
        reveal_strlit("icons/file-types/");
        reveal_strlit(".svg");
        assert("icons/file-types/vue.svg"@.subrange(0, 17) =~= "icons/file-types/"@);
        assert("icons/file-types/vue.svg"@.subrange(20, 24) =~= ".svg"@);
    }
    assert(is_file_type_icon("icons/file-types/webassembly.svg"@)) by {
        reveal_strlit("icons/file-types/webassembly.svg");
        reveal_strlit("icons/file-types/");
        reveal_strlit(".svg");
        assert("icons/file-types/webassembly.svg"@.subrange(0, 17) =~= "icons/file-types/"@);
        assert("icons/file-types/webassembly.svg"@.subrange(28, 32) =~= ".svg"@);
    }
    assert(is_file_type_icon("icons/file-types/xaml.svg"@)) by {
        reveal_strlit("icons/file-types/xaml.svg");
        reveal_strlit("icons/file-types/");
        reveal_strlit(".svg");
        assert("icons/file-types/xaml.svg"@.subrange(0, 17) =~= "icons/file-types/"@);
        assert("icons/file-types/xaml.svg"@.subrange(21, 25) =~= ".svg"@);
    }
    assert(is_file_type_icon("icons/file-types/zig.svg"@)) by {
        reveal_strlit("icons/file-types/zig.svg");
        reveal_strlit("icons/file-types/");
        reveal_strlit(".svg");
        assert("icons/file-types/zig.svg"@.subrange(0, 17) =~= "icons/file-types/"@);
        assert("icons/file-types/zig.svg"@.subrange(20, 24) =~= ".svg"@);
    }
}

proof fn lemma_extension_icon_b_paths(e: Seq<u8>)
    ensures
        extension_icon_b(e) matches Some(s) ==> is_file_type_icon(s),
{
    lemma_extension_icon_b_literals();
}

proof fn lemma_named_icon_of_paths(n: Seq<u8>)
    ensures
        named_icon_of(n) matches Some(s) ==> is_file_type_icon(s),
{
    lemma_named_icon_a_paths(n);
    lemma_named_icon_b_paths(n);
    lemma_named_icon_c_paths(n);
}

proof fn lemma_generic_icon_path()
    ensures
        is_file_type_icon("icons/file-types/file.svg"@),
{
    reveal_strlit("icons/file-types/file.svg");
    reveal_strlit("icons/file-types/");
    reveal_strlit(".svg");
    assert("icons/file-types/file.svg"@.subrange(0, 17) =~= "icons/file-types/"@);
    assert("icons/file-types/file.svg"@.subrange(21, 25) =~= ".svg"@);
}

proof fn lemma_extension_icon_of_paths(e: Seq<u8>)
    ensures
        is_file_type_icon(extension_icon_of(e)),
{
    lemma_extension_icon_a_paths(e);
    lemma_extension_icon_b_paths(e);
    lemma_generic_icon_path();
}

/// Every file icon is a path of the file-type set:
/// `icons/file-types/<name>.svg`.
pub proof fn law_icons_are_file_type_svgs(b: Seq<u8>)
    ensures
        is_file_type_icon(icon_for_name_bytes(b)),
{
    let n = lower_bytes(b);
    lemma_named_icon_of_paths(n);
    lemma_extension_icon_of_paths(
        match path_extension_of(n) {
            Some(e) => e,
            None => seq![],
        },
    );
}

/// The icon a file tree shows for a file name: name rules for well-known
/// files (`README*`, `Dockerfile*`, `bun.lock`, `vite.config.*`, ...) and
/// then its extension, ASCII case ignored.
pub fn file_icon_for_name(name: &str) -> (r: &'static str)
    ensures
        r@ == icon_for_name(name@),
{
    icon_for_bytes(name.as_bytes())
}

/// The icon for a path, chosen by its file name.
pub fn file_icon_for_path(path: &str) -> (r: &'static str)
    ensures
        r@ == icon_for_path(path@),
{
    let b = path.as_bytes();
    match file_name_range(b) {
        Some((s, e)) => icon_for_bytes(vstd::slice::slice_subrange(b, s, e)),
        None => icon_for_bytes(b),
    }
}

// ---------------------------------------------------------------------------
// Highlighter languages
// ---------------------------------------------------------------------------
/// The serialization a lock file is written in, by its lower-cased name.
pub open spec fn lockfile_language(n: Seq<u8>) -> Option<Seq<char>> {
    if n == lit("bun.lock")
        || n == lit("composer.lock")
        || n == lit("conan.lock")
        || n == lit("deno.lock")
        || n == lit("flake.lock")
        || n == lit("npm-shrinkwrap.json")
        || n == lit("package-lock.json")
        || n == lit("package.resolved")
        || n == lit("packages.lock.json")
        || n == lit("pipfile.lock") {
        Some("json"@)
    } else if n == lit("cargo.lock")
        || n == lit("pdm.lock")
        || n == lit("poetry.lock")
        || n == lit("uv.lock") {
        Some("toml"@)
    } else if n == lit("chart.lock")
        || n == lit("gemfile.lock")
        || n == lit("pnpm-lock.yaml")
        || n == lit("podfile.lock")
        || n == lit("pubspec.lock")
        || n == lit("yarn.lock") {
        Some("yaml"@)
    } else if n == lit("mix.lock") {
        Some("elixir"@)
    } else {
        None
    }
}

fn lockfile_language_exec(n: &[u8]) -> (r: Option<&'static str>)
    ensures
        opt_chars(r) == lockfile_language(n@),
{
    if is_lit(n, "bun.lock")
        || is_lit(n, "composer.lock")
        || is_lit(n, "conan.lock")
        || is_lit(n, "deno.lock")
        || is_lit(n, "flake.lock")
        || is_lit(n, "npm-shrinkwrap.json")
        || is_lit(n, "package-lock.json")
        || is_lit(n, "package.resolved")
        || is_lit(n, "packages.lock.json")
        || is_lit(n, "pipfile.lock") {
        Some("json")
    } else if is_lit(n, "cargo.lock")
        || is_lit(n, "pdm.lock")
        || is_lit(n, "poetry.lock")
        || is_lit(n, "uv.lock") {
        Some("toml")
    } else if is_lit(n, "chart.lock")
        || is_lit(n, "gemfile.lock")
        || is_lit(n, "pnpm-lock.yaml")
        || is_lit(n, "podfile.lock")
        || is_lit(n, "pubspec.lock")
        || is_lit(n, "yarn.lock") {
        Some("yaml")
    } else if is_lit(n, "mix.lock") {
        Some("elixir")
    } else {
        None
    }
}

/// The language of a lower-cased extension; `text` for any other.
pub open spec fn extension_language(e: Seq<u8>) -> Seq<char> {
    if e == lit("rs") {
        "rust"@
    } else if e == lit("ts")
        || e == lit("mts")
        || e == lit("cts") {
        "typescript"@
    } else if e == lit("tsx") {
        "tsx"@
    } else if e == lit("js")
        || e == lit("jsx")
        || e == lit("mjs")
        || e == lit("cjs") {
        "javascript"@
    } else if e == lit("py") || e == lit("pyi") {
        "python"@
    } else if e == lit("go") {
        "go"@
    } else if e == lit("c") {
        "c"@
    } else if e == lit("h")
        || e == lit("hpp")
        || e == lit("hh")
        || e == lit("hxx")
        || e == lit("cc")
        || e == lit("cpp")
        || e == lit("cxx") {
        "cpp"@
    } else if e == lit("m") || e == lit("mm") {
        "objc"@
    } else if e == lit("java")
        || e == lit("kt")
        || e == lit("kts") {
        "java"@
    } else if e == lit("cs") {
        "csharp"@
    } else if e == lit("scala") || e == lit("sc") {
        "scala"@
    } else if e == lit("rb")
        || e == lit("rake")
        || e == lit("gemspec") {
        "ruby"@
    } else if e == lit("swift") {
        "swift"@
    } else if e == lit("json")
        || e == lit("jsonc")
        || e == lit("json5") {
        "json"@
    } else if e == lit("yaml") || e == lit("yml") {
        "yaml"@
    } else if e == lit("toml") {
        "toml"@
    } else if e == lit("ini")
        || e == lit("cfg")
        || e == lit("conf") {
        "ini"@
    } else if e == lit("sh")
        || e == lit("bash")
        || e == lit("zsh")
        || e == lit("fish") {
        "bash"@
    } else if e == lit("css")
        || e == lit("scss")
        || e == lit("sass")
        || e == lit("less") {
        "css"@
    } else if e == lit("html")
        || e == lit("htm")
        || e == lit("xml")
        || e == lit("svg")
        || e == lit("vue")
        || e == lit("svelte") {
        "html"@
    } else if e == lit("sql") {
        "sql"@
    } else if e == lit("diff") || e == lit("patch") {
        "diff"@
    } else if e == lit("md")
        || e == lit("markdown")
        || e == lit("mdx") {
        "markdown"@
    } else {
        "text"@
    }
}

fn extension_language_exec(e: &[u8]) -> (r: &'static str)
    ensures
        r@ == extension_language(e@),
{
    if is_lit(e, "rs") {
        "rust"
    } else if is_lit(e, "ts")
        || is_lit(e, "mts")
        || is_lit(e, "cts") {
        "typescript"
    } else if is_lit(e, "tsx") {
        "tsx"
    } else if is_lit(e, "js")
        || is_lit(e, "jsx")
        || is_lit(e, "mjs")
        || is_lit(e, "cjs") {
        "javascript"
    } else if is_lit(e, "py") || is_lit(e, "pyi") {
        "python"
    } else if is_lit(e, "go") {
        "go"
    } else if is_lit(e, "c") {
        "c"
    } else if is_lit(e, "h")
        || is_lit(e, "hpp")
        || is_lit(e, "hh")
        || is_lit(e, "hxx")
        || is_lit(e, "cc")
        || is_lit(e, "cpp")
        || is_lit(e, "cxx") {
        "cpp"
    } else if is_lit(e, "m") || is_lit(e, "mm") {
        "objc"
    } else if is_lit(e, "java")
        || is_lit(e, "kt")
        || is_lit(e, "kts") {
        "java"
    } else if is_lit(e, "cs") {
        "csharp"
    } else if is_lit(e, "scala") || is_lit(e, "sc") {
        "scala"
    } else if is_lit(e, "rb")
        || is_lit(e, "rake")
        || is_lit(e, "gemspec") {
        "ruby"
    } else if is_lit(e, "swift") {
        "swift"
    } else if is_lit(e, "json")
        || is_lit(e, "jsonc")
        || is_lit(e, "json5") {
        "json"
    } else if is_lit(e, "yaml") || is_lit(e, "yml") {
        "yaml"
    } else if is_lit(e, "toml") {
        "toml"
    } else if is_lit(e, "ini")
        || is_lit(e, "cfg")
        || is_lit(e, "conf") {
        "ini"
    } else if is_lit(e, "sh")
        || is_lit(e, "bash")
        || is_lit(e, "zsh")
        || is_lit(e, "fish") {
        "bash"
    } else if is_lit(e, "css")
        || is_lit(e, "scss")
        || is_lit(e, "sass")
        || is_lit(e, "less") {
        "css"
    } else if is_lit(e, "html")
        || is_lit(e, "htm")
        || is_lit(e, "xml")
        || is_lit(e, "svg")
        || is_lit(e, "vue")
        || is_lit(e, "svelte") {
        "html"
    } else if is_lit(e, "sql") {
        "sql"
    } else if is_lit(e, "diff") || is_lit(e, "patch") {
        "diff"
    } else if is_lit(e, "md")
        || is_lit(e, "markdown")
        || is_lit(e, "mdx") {
        "markdown"
    } else {
        "text"
    }
}

/// The highlighter language for a path: lock files by the format they are
/// written in, `Makefile*` and `Dockerfile*` by name, then the extension
/// (ASCII case ignored), `text` for anything else.
pub open spec fn language_for_path(path: Seq<char>) -> Seq<char> {
    let b = utf8(path);
    let f = match file_name_of(b) {
        Some(f) => f,
        None => seq![],
    };
    let n = lower_bytes(f);
    match lockfile_language(n) {
        Some(l) => l,
        None => if f == lit("Makefile") || starts(f, lit("Makefile.")) {
            "make"@
        } else if n == lit("dockerfile") || starts(n, lit("dockerfile.")) {
            "dockerfile"@
        } else {
            extension_language(
                match path_extension_of(b) {
                    Some(e) => lower_bytes(e),
                    None => seq![],
                },
            )
        },
    }
}

/// The last byte of text that ends in an ASCII character is that character.
proof fn lemma_last_byte(s: Seq<char>)
    requires
        s.len() > 0,
        (s.last() as u32) < 128,
    ensures
        utf8(s).len() > 0,
        utf8(s).last() == (s.last() as u32) as u8,
{
    assert(s =~= s.drop_last() + seq![s.last()]);
    lemma_utf8_concat(s.drop_last(), seq![s.last()]);
    lemma_char_bytes(s.last());
}

/// The last position of `x` lies inside `s`.
proof fn lemma_last_index_bounds(s: Seq<u8>, x: u8)
    ensures
        last_index_of(s, x) matches Some(k) ==> 0 <= k < s.len(),
    decreases s.len(),
{
    if s.len() > 0 && s.last() != x {
        lemma_last_index_bounds(s.drop_last(), x);
    }
}

/// No lock file's name ends in `y` or `i`.
proof fn lemma_not_lockfile(n: Seq<u8>)
    requires
        n.len() > 0,
        n.last() == 121 || n.last() == 105,
    ensures
        lockfile_language(n) is None,
{
    reveal_strlit("bun.lock");
    lemma_last_byte("bun.lock"@);
    reveal_strlit("composer.lock");
    lemma_last_byte("composer.lock"@);
    reveal_strlit("conan.lock");
    lemma_last_byte("conan.lock"@);
    reveal_strlit("deno.lock");
    lemma_last_byte("deno.lock"@);
    reveal_strlit("flake.lock");
    lemma_last_byte("flake.lock"@);
    reveal_strlit("npm-shrinkwrap.json");
    lemma_last_byte("npm-shrinkwrap.json"@);
    reveal_strlit("package-lock.json");
    lemma_last_byte("package-lock.json"@);
    reveal_strlit("package.resolved");
    lemma_last_byte("package.resolved"@);
    reveal_strlit("packages.lock.json");
    lemma_last_byte("packages.lock.json"@);
    reveal_strlit("pipfile.lock");
    lemma_last_byte("pipfile.lock"@);
    reveal_strlit("cargo.lock");
    lemma_last_byte("cargo.lock"@);
    reveal_strlit("pdm.lock");
    lemma_last_byte("pdm.lock"@);
    reveal_strlit("poetry.lock");
    lemma_last_byte("poetry.lock"@);
    reveal_strlit("uv.lock");
    lemma_last_byte("uv.lock"@);
    reveal_strlit("chart.lock");
    lemma_last_byte("chart.lock"@);
    reveal_strlit("gemfile.lock");
    lemma_last_byte("gemfile.lock"@);
    reveal_strlit("pnpm-lock.yaml");
    lemma_last_byte("pnpm-lock.yaml"@);
    reveal_strlit("podfile.lock");
    lemma_last_byte("podfile.lock"@);
    reveal_strlit("pubspec.lock");
    lemma_last_byte("pubspec.lock"@);
    reveal_strlit("yarn.lock");
    lemma_last_byte("yarn.lock"@);
    reveal_strlit("mix.lock");
    lemma_last_byte("mix.lock"@);
}

/// The extensions `py` and `pyi` are Python's.
proof fn lemma_python_extension(e: Seq<u8>)
    requires
        e == lit("py") || e == lit("pyi"),
    ensures
        extension_language(e) == "python"@,
{
    reveal_strlit("rs");
    lemma_last_byte("rs"@);
    reveal_strlit("ts");
    lemma_last_byte("ts"@);
    reveal_strlit("mts");
    lemma_last_byte("mts"@);
    reveal_strlit("cts");
    lemma_last_byte("cts"@);
    reveal_strlit("tsx");
    lemma_last_byte("tsx"@);
    reveal_strlit("js");
    lemma_last_byte("js"@);
    reveal_strlit("jsx");
    lemma_last_byte("jsx"@);
    reveal_strlit("mjs");
    lemma_last_byte("mjs"@);
    reveal_strlit("cjs");
    lemma_last_byte("cjs"@);
    reveal_strlit("py");
    lemma_last_byte("py"@);
    reveal_strlit("pyi");
    lemma_last_byte("pyi"@);
}

/// A file whose extension is `py` or `pyi` (ASCII case ignored) is
/// highlighted as Python, unless its name makes it a `Makefile.*` or a
/// `Dockerfile.*`, which are highlighted by their name.
pub proof fn law_python_files_highlight_as_python(path: Seq<char>)
    requires
        file_name_of(utf8(path)) matches Some(f) && extension_of(f) matches Some(e) && (lower_bytes(e)
            == lit("py") || lower_bytes(e) == lit("pyi")) && !starts(f, lit("Makefile.")) && !starts(
            lower_bytes(f),
            lit("dockerfile."),
        ),
    ensures
        language_for_path(path) == "python"@,
{
    let b = utf8(path);
    let f = file_name_of(b)->0;
    let e = extension_of(f)->0;
    let n = lower_bytes(f);
    let k = last_index_of(f, 46u8)->0;
    lemma_last_index_bounds(f, 46u8);
    assert(e == f.skip(k + 1));
    reveal_strlit("py");
    reveal_strlit("pyi");
    lemma_last_byte("py"@);
    lemma_last_byte("pyi"@);
    let le = lower_bytes(e);
    assert(le.len() > 0);
    assert(le.last() == lower_byte(e.last()));
    assert(e.last() == f.last());
    assert(n.last() == lower_byte(f.last()));
    assert(n.last() == 121 || n.last() == 105);
    lemma_not_lockfile(n);
    reveal_strlit("Makefile");
    lemma_last_byte("Makefile"@);
    reveal_strlit("dockerfile");
    lemma_last_byte("dockerfile"@);
    assert(f != lit("Makefile")) by {
        if f == lit("Makefile") {
            assert(lower_byte(f.last()) == lower_byte(101u8));
        }
    }
    assert(n != lit("dockerfile"));
    lemma_python_extension(le);
}

/// The language name a file is highlighted as.
pub fn file_highlighter_language(relative_path: &str) -> (r: &'static str)
    ensures
        r@ == language_for_path(relative_path@),
{
    let b = relative_path.as_bytes();
    let f = match file_name_range(b) {
        Some((s, e)) => copy_range(b, s, e),
        None => Vec::new(),
    };
    let n = lowercase_bytes(f.as_slice());
    if let Some(l) = lockfile_language_exec(n.as_slice()) {
        return l;
    }
    if is_lit(f.as_slice(), "Makefile") || starts_lit(f.as_slice(), "Makefile.") {
        return "make";
    }
    if is_lit(n.as_slice(), "dockerfile") || starts_lit(n.as_slice(), "dockerfile.") {
        return "dockerfile";
    }
    let ext = path_extension(b);
    let lower_ext = lowercase_bytes(ext.as_slice());
    proof {
        if path_extension_of(b@) is None {
            assert(lower_bytes(Seq::<u8>::empty()) =~= Seq::<u8>::empty());
        }
    }
    extension_language_exec(lower_ext.as_slice())
}

} // verus!
