//! Paths as sequences of components, and the path arithmetic that decides
//! where each converted file is written.
//!
//! A path is held as its components, as `std::path::Path::components` gives
//! them: the anchor (a Windows prefix and the root, when present) and then
//! the names (`.` and `..` kept as written). Two paths are equal exactly when
//! their components are.

use vstd::prelude::*;
use crate::text::{chars_are, chars_from, chars_of, string_of};

verus! {

/// What the machine can hold: the component count fits a `usize`.
pub open spec fn fits(p: PathView) -> bool {
    p.anchor.len() + p.names.len() <= usize::MAX
}

/// A path as its components.
pub struct PathModel {
    /// Prefix and root components (empty for a relative path).
    pub anchor: Vec<String>,
    /// The remaining components, in order.
    pub names: Vec<String>,
}

/// The mathematical value of a path: its anchor and names as character sequences.
pub struct PathView {
    pub anchor: Seq<Seq<char>>,
    pub names: Seq<Seq<char>>,
}

pub open spec fn texts(v: Seq<String>) -> Seq<Seq<char>> {
    v.map_values(|s: String| s@)
}

impl View for PathModel {
    type V = PathView;

    open spec fn view(&self) -> PathView {
        PathView { anchor: texts(self.anchor@), names: texts(self.names@) }
    }
}

/// All components of a path, anchor first.
pub open spec fn comps(p: PathView) -> Seq<Seq<char>> {
    p.anchor + p.names
}

/// `q` is a prefix of `p` component-wise (`Path::starts_with`).
pub open spec fn starts_with(p: PathView, q: PathView) -> bool {
    comps(q).len() <= comps(p).len() && comps(p).take(comps(q).len() as int) == comps(q)
}

/// The file name (`Path::file_name`): the last name, unless it is `.` or `..`
/// or there is none.
pub open spec fn file_name(p: PathView) -> Option<Seq<char>> {
    if p.names.len() > 0 && p.names.last() != "."@ && p.names.last() != ".."@ {
        Some(p.names.last())
    } else {
        None
    }
}

/// Index of the last `.` in `s` before `j`, or -1.
pub open spec fn last_dot_before(s: Seq<char>, j: int) -> int
    decreases j,
{
    if j <= 0 || j > s.len() {
        -1
    } else if s[j - 1] == '.' {
        j - 1
    } else {
        last_dot_before(s, j - 1)
    }
}

pub open spec fn last_dot(s: Seq<char>) -> int {
    last_dot_before(s, s.len() as int)
}

proof fn lemma_last_dot_range(s: Seq<char>, j: int)
    requires
        0 <= j <= s.len(),
    ensures
        -1 <= last_dot_before(s, j) < j,
        last_dot_before(s, j) >= 0 ==> s[last_dot_before(s, j)] == '.',
    decreases j,
{
    if j > 0 && s[j - 1] != '.' {
        lemma_last_dot_range(s, j - 1);
    }
}

/// The stem of a file name (`Path::file_stem`): the part before the last `.`,
/// or the whole name when it has no `.` other than a leading one.
pub open spec fn stem_of(name: Seq<char>) -> Seq<char> {
    if last_dot(name) <= 0 {
        name
    } else {
        name.take(last_dot(name))
    }
}

/// The extension of a file name (`Path::extension`): the part after the
/// last `.`, when there is a `.` that is not the first character.
pub open spec fn ext_of(name: Seq<char>) -> Option<Seq<char>> {
    if last_dot(name) <= 0 {
        None
    } else {
        Some(name.skip(last_dot(name) + 1))
    }
}

/// `Path::extension`.
pub open spec fn extension(p: PathView) -> Option<Seq<char>> {
    match file_name(p) {
        Some(n) => ext_of(n),
        None => None,
    }
}

/// The name that `set_extension(ext)` gives a file named `name`.
pub open spec fn renamed(name: Seq<char>, ext: Seq<char>) -> Seq<char> {
    if ext.len() == 0 {
        stem_of(name)
    } else {
        stem_of(name).push('.') + ext
    }
}

/// `PathBuf::set_extension`: the path with its file name's extension
/// replaced; unchanged when it has no file name.
pub open spec fn with_ext(p: PathView, ext: Seq<char>) -> PathView {
    match file_name(p) {
        Some(n) => PathView { anchor: p.anchor, names: p.names.drop_last().push(renamed(n, ext)) },
        None => p,
    }
}

/// `PathBuf::pop`: the parent, or the path itself when it has no parent.
pub open spec fn popped(p: PathView) -> PathView {
    if p.names.len() > 0 {
        PathView { anchor: p.anchor, names: p.names.drop_last() }
    } else {
        p
    }
}

/// `Path::join`: a path with an anchor replaces the base; otherwise its
/// names are appended to the base.
pub open spec fn joined(base: PathView, rel: PathView) -> PathView {
    if rel.anchor.len() > 0 {
        rel
    } else {
        PathView { anchor: base.anchor, names: base.names + rel.names }
    }
}

/// The components of `p` after its first `k` ones, as a path.
pub open spec fn after(p: PathView, k: int) -> PathView {
    if k <= p.anchor.len() {
        PathView { anchor: p.anchor.skip(k), names: p.names }
    } else {
        PathView { anchor: Seq::empty(), names: p.names.skip(k - p.anchor.len()) }
    }
}

/// `Path::strip_prefix`.
pub open spec fn stripped(p: PathView, base: PathView) -> Option<PathView> {
    if starts_with(p, base) {
        Some(after(p, comps(base).len() as int))
    } else {
        None
    }
}

fn clone_strings(v: &Vec<String>) -> (r: Vec<String>)
    ensures
        r@ == v@,
{
    let mut r: Vec<String> = Vec::new();
    let mut i: usize = 0;
    while i < v.len()
        invariant
            i <= v@.len(),
            r@ == v@.take(i as int),
        decreases v.len() - i,
    {
        r.push(v[i].clone());
        assert(v@.take(i + 1) == v@.take(i as int).push(v@[i as int]));
        i += 1;
    }
    assert(v@.take(v@.len() as int) == v@);
    r
}

fn strings_from(v: &Vec<String>, from: usize) -> (r: Vec<String>)
    requires
        from <= v@.len(),
    ensures
        r@ == v@.skip(from as int),
{
    let mut r: Vec<String> = Vec::new();
    let mut i: usize = from;
    while i < v.len()
        invariant
            from <= i <= v@.len(),
            r@ == v@.subrange(from as int, i as int),
        decreases v.len() - i,
    {
        r.push(v[i].clone());
        assert(v@.subrange(from as int, i + 1) == v@.subrange(from as int, i as int).push(
            v@[i as int],
        ));
        i += 1;
    }
    r
}

impl PathModel {
    /// A copy of the path.
    pub fn duplicate(&self) -> (r: PathModel)
        ensures
            r@ == self@,
    {
        PathModel { anchor: clone_strings(&self.anchor), names: clone_strings(&self.names) }
    }

    /// Whether the path has no components.
    pub fn is_empty(&self) -> (r: bool)
        ensures
            r == (comps(self@).len() == 0),
    {
        self.anchor.len() == 0 && self.names.len() == 0
    }

    /// The component at position `i` of `comps`.
    fn component(&self, i: usize) -> (r: &String)
        requires
            i < self.anchor@.len() + self.names@.len(),
        ensures
            r@ == comps(self@)[i as int],
    {
        if i < self.anchor.len() {
            &self.anchor[i]
        } else {
            &self.names[i - self.anchor.len()]
        }
    }

    /// `Path::starts_with`.
    pub fn starts_with(&self, base: &PathModel) -> (r: bool)
        requires
            fits(self@),
            fits(base@),
        ensures
            r == starts_with(self@, base@),
    {
        let n = self.anchor.len() + self.names.len();
        let m = base.anchor.len() + base.names.len();
        assert(comps(self@).len() == n && comps(base@).len() == m);
        if m > n {
            return false;
        }
        let mut i: usize = 0;
        while i < m
            invariant
                m <= n,
                n == self.anchor@.len() + self.names@.len(),
                m == base.anchor@.len() + base.names@.len(),
                comps(self@).len() == n,
                comps(base@).len() == m,
                i <= m,
                forall|k: int| 0 <= k < i ==> comps(self@)[k] == comps(base@)[k],
            decreases m - i,
        {
            let a = self.component(i);
            let b = base.component(i);
            if !(*a == *b) {
                assert(comps(self@).take(m as int)[i as int] != comps(base@)[i as int]);
                return false;
            }
            i += 1;
        }
        assert(comps(self@).take(m as int) =~= comps(base@));
        true
    }

    /// `PathBuf::pop`: drops the last name; `false` (and no change) when
    /// there is no name left above the anchor.
    pub fn pop(&mut self) -> (r: bool)
        ensures
            r == (old(self)@.names.len() > 0),
            final(self)@ == popped(old(self)@),
    {
        if self.names.len() > 0 {
            self.names.pop();
            proof {
                assert(texts(self.names@) =~= texts(old(self).names@).drop_last());
            }
            true
        } else {
            false
        }
    }

    /// The file name, when there is one.
    pub fn file_name(&self) -> (r: Option<Vec<char>>)
        ensures
            r matches Some(v) ==> file_name(self@) == Some(v@),
            r is None ==> file_name(self@) is None,
    {
        let n = self.names.len();
        if n == 0 {
            return None;
        }
        let last = chars_of(self.names[n - 1].as_str());
        assert(self@.names.last() == last@);
        if chars_are(&last, ".") || chars_are(&last, "..") {
            None
        } else {
            Some(last)
        }
    }

    /// `Path::strip_prefix`.
    pub fn strip_prefix(&self, base: &PathModel) -> (r: Option<PathModel>)
        requires
            fits(self@),
            fits(base@),
        ensures
            r matches Some(q) ==> stripped(self@, base@) == Some(q@),
            r is None ==> stripped(self@, base@) is None,
    {
        if !self.starts_with(base) {
            return None;
        }
        let k = base.anchor.len() + base.names.len();
        let alen = self.anchor.len();
        if k <= alen {
            let r = PathModel { anchor: strings_from(&self.anchor, k), names: clone_strings(&self.names) };
            assert(r@.anchor =~= self@.anchor.skip(k as int));
            Some(r)
        } else {
            assert(comps(self@).len() >= k);
            let r = PathModel { anchor: Vec::new(), names: strings_from(&self.names, k - alen) };
            assert(r@.names =~= self@.names.skip(k - alen));
            assert(r@.anchor =~= Seq::<Seq<char>>::empty());
            Some(r)
        }
    }

    /// `Path::join`.
    pub fn join(&self, rel: &PathModel) -> (r: PathModel)
        ensures
            r@ == joined(self@, rel@),
    {
        if rel.anchor.len() > 0 {
            rel.duplicate()
        } else {
            let mut names = clone_strings(&self.names);
            let mut i: usize = 0;
            while i < rel.names.len()
                invariant
                    i <= rel.names@.len(),
                    names@ == self.names@ + rel.names@.take(i as int),
                decreases rel.names.len() - i,
            {
                names.push(rel.names[i].clone());
                assert(rel.names@.take(i + 1) == rel.names@.take(i as int).push(rel.names@[i as int]));
                i += 1;
            }
            assert(rel.names@.take(rel.names@.len() as int) == rel.names@);
            let r = PathModel { anchor: clone_strings(&self.anchor), names };
            assert(texts(names@) =~= texts(self.names@) + texts(rel.names@));
            r
        }
    }
}

/// One past the index of the last `.` in `s`, or 0 when it has none.
fn find_last_dot(s: &Vec<char>) -> (r: usize)
    ensures
        r == last_dot(s@) + 1,
{
    let mut j: usize = s.len();
    while j > 0 && s[j - 1] != '.'
        invariant
            j <= s@.len(),
            last_dot(s@) == last_dot_before(s@, j as int),
        decreases j,
    {
        j -= 1;
    }
    j
}

/// The name that `set_extension(ext)` gives a file named `name`.
pub fn rename_with_ext(name: &Vec<char>, ext: &Vec<char>) -> (r: Vec<char>)
    ensures
        r@ == renamed(name@, ext@),
{
    let k = find_last_dot(name);
    proof {
        lemma_last_dot_range(name@, name@.len() as int);
    }
    let mut r: Vec<char> = Vec::new();
    let n = name.len();
    let stem_len: usize = if k <= 1 { n } else { k - 1 };
    assert(k <= 1 ==> stem_len == name@.len());
    assert(k > 1 ==> stem_len == last_dot(name@));
    let mut i: usize = 0;
    while i < stem_len
        invariant
            stem_len <= name@.len(),
            i <= stem_len,
            r@ == name@.take(i as int),
        decreases stem_len - i,
    {
        r.push(name[i]);
        assert(name@.take(i + 1) == name@.take(i as int).push(name@[i as int]));
        i += 1;
    }
    assert(name@.take(name@.len() as int) =~= name@);
    assert(r@ =~= stem_of(name@));
    if ext.len() > 0 {
        r.push('.');
        let mut j: usize = 0;
        while j < ext.len()
            invariant
                j <= ext@.len(),
                r@ == stem_of(name@).push('.') + ext@.take(j as int),
            decreases ext.len() - j,
        {
            r.push(ext[j]);
            assert(ext@.take(j + 1) == ext@.take(j as int).push(ext@[j as int]));
            j += 1;
        }
        assert(ext@.take(ext@.len() as int) == ext@);
    }
    r
}

/// The extension of a file name, when it has one.
pub fn name_extension(name: &Vec<char>) -> (r: Option<Vec<char>>)
    ensures
        r matches Some(v) ==> ext_of(name@) == Some(v@),
        r is None ==> ext_of(name@) is None,
{
    let k = find_last_dot(name);
    proof {
        lemma_last_dot_range(name@, name@.len() as int);
    }
    if k <= 1 {
        None
    } else {
        let n = name.len();
        assert(k <= n);
        let e = chars_from(name, k);
        assert(e@ =~= name@.skip(last_dot(name@) + 1));
        Some(e)
    }
}


impl PathModel {
    /// `Path::extension`.
    pub fn extension(&self) -> (r: Option<Vec<char>>)
        requires
            fits(self@),
        ensures
            r matches Some(v) ==> extension(self@) == Some(v@),
            r is None ==> extension(self@) is None,
    {
        match self.file_name() {
            Some(n) => {
                name_extension(&n)
            },
            None => None,
        }
    }

    /// `PathBuf::set_extension`: returns whether there was a file name to rename.
    pub fn set_extension(&mut self, ext: &Vec<char>) -> (r: bool)
        requires
            fits(old(self)@),
        ensures
            r == (file_name(old(self)@) is Some),
            final(self)@ == with_ext(old(self)@, ext@),
    {
        match self.file_name() {
            Some(n) => {
                let new_name = rename_with_ext(&n, ext);
                let last = self.names.len() - 1;
                self.names.set(last, string_of(&new_name));
                proof {
                    assert(texts(self.names@) =~= texts(old(self).names@).drop_last().push(
                        renamed(n@, ext@),
                    ));
                }
                true
            },
            None => false,
        }
    }
}


/// Shortens `common` by popping until `fp` starts with it, it is empty, or
/// nothing above its anchor is left (the loop that finds the batch's base).
pub open spec fn shrink(common: PathView, fp: PathView) -> PathView
    decreases common.names.len(),
{
    if comps(common).len() == 0 || starts_with(fp, common) {
        common
    } else if common.names.len() > 0 {
        shrink(popped(common), fp)
    } else {
        common
    }
}

/// Folds `shrink` over the parents of `files`, starting from `common`.
pub open spec fn base_from(common: PathView, files: Seq<PathView>) -> PathView
    decreases files.len(),
{
    if files.len() == 0 {
        common
    } else {
        base_from(shrink(common, popped(files[0])), files.drop_first())
    }
}

/// The base folder of a batch: starting from the first file's parent, the
/// longest leading part that every later file's parent starts with.
pub open spec fn common_base(files: Seq<PathView>) -> PathView {
    if files.len() == 0 {
        PathView { anchor: Seq::empty(), names: Seq::empty() }
    } else {
        base_from(popped(files[0]), files.drop_first())
    }
}

pub open spec fn views(v: Seq<PathModel>) -> Seq<PathView> {
    v.map_values(|p: PathModel| p@)
}

pub open spec fn all_fit(v: Seq<PathModel>) -> bool {
    forall|i: int| 0 <= i < v.len() ==> fits(#[trigger] v[i]@)
}

/// Pops `common` until `fp` starts with it, it is empty, or it cannot pop.
fn shrink_to(common: &mut PathModel, fp: &PathModel)
    requires
        fits(old(common)@),
        fits(fp@),
    ensures
        final(common)@ == shrink(old(common)@, fp@),
        fits(final(common)@),
{
    let ghost goal = shrink(common@, fp@);
    let mut done = false;
    while !done
        invariant
            fits(common@),
            fits(fp@),
            shrink(common@, fp@) == goal,
            done ==> common@ == goal,
        decreases common@.names.len() + (if done { 0int } else { 1int }),
    {
        if common.is_empty() || fp.starts_with(common) {
            done = true;
        } else {
            let popped_one = common.pop();
            if !popped_one {
                done = true;
            }
        }
    }
}

/// The base folder of a batch (see `common_base`); the folder tree under it
/// is rebuilt in the output folder.
pub fn common_base_of(files: &Vec<PathModel>) -> (r: PathModel)
    requires
        all_fit(files@),
    ensures
        r@ == common_base(views(files@)),
        fits(r@),
{
    let ghost vs = views(files@);
    if files.len() == 0 {
        let r = PathModel { anchor: Vec::new(), names: Vec::new() };
        assert(r@.anchor =~= Seq::<Seq<char>>::empty());
        assert(r@.names =~= Seq::<Seq<char>>::empty());
        return r;
    }
    let mut common = files[0].duplicate();
    assert(fits(files@[0]@));
    common.pop();
    let mut i: usize = 1;
    assert(vs.skip(1) =~= vs.drop_first());
    while i < files.len()
        invariant
            1 <= i <= files@.len(),
            vs == views(files@),
            all_fit(files@),
            fits(common@),
            base_from(common@, vs.skip(i as int)) == common_base(vs),
        decreases files.len() - i,
    {
        let mut fp = files[i].duplicate();
        assert(fits(files@[i as int]@));
        fp.pop();
        proof {
            assert(vs.skip(i as int)[0] == files@[i as int]@);
            assert(vs.skip(i as int).drop_first() =~= vs.skip(i + 1));
        }
        shrink_to(&mut common, &fp);
        i += 1;
    }
    assert(vs.skip(i as int).len() == 0);
    common
}

/// Whether an output argument names a folder: it is one on disk, ends in a
/// separator, or has no extension.
pub open spec fn is_dir_target(out_text: Seq<char>, out: PathView, out_is_dir: bool) -> bool {
    ||| out_is_dir
    ||| out_text.len() > 0 && (out_text.last() == '/' || out_text.last() == '\\')
    ||| extension(out) is None
}

/// Where a batch file is written when an output argument is given: inside
/// an output folder, at its path relative to the batch base, with the
/// target format's extension; otherwise the output path itself.
pub open spec fn planned_output(
    out_text: Seq<char>,
    out: PathView,
    out_is_dir: bool,
    file: PathView,
    base: PathView,
    format: Seq<char>,
) -> PathView {
    if is_dir_target(out_text, out, out_is_dir) {
        let rel = match stripped(file, base) {
            Some(r) => r,
            None => file,
        };
        with_ext(joined(out, rel), format)
    } else {
        out
    }
}

/// Plans where a batch file is written (see `planned_output`).
pub fn plan_output(
    out_text: &Vec<char>,
    out: &PathModel,
    out_is_dir: bool,
    file: &PathModel,
    base: &PathModel,
    format: &Vec<char>,
) -> (r: PathModel)
    requires
        fits(out@),
        fits(file@),
        fits(base@),
        out@.anchor.len() + out@.names.len() + file@.names.len() <= usize::MAX,
    ensures
        r@ == planned_output(out_text@, out@, out_is_dir, file@, base@, format@),
        fits(r@),
{
    let n = out_text.len();
    let ends_in_sep = n > 0 && (out_text[n - 1] == '/' || out_text[n - 1] == '\\');
    let dir = out_is_dir || ends_in_sep || out.extension().is_none();
    if dir {
        let rel = match file.strip_prefix(base) {
            Some(r) => r,
            None => file.duplicate(),
        };
        proof {
            if rel@.anchor.len() == 0 {
                assert(rel@.names.len() <= file@.names.len());
            }
        }
        let mut joined_path = out.join(&rel);
        joined_path.set_extension(format);
        joined_path
    } else {
        out.duplicate()
    }
}

/// The path a single conversion writes: the exact output path when one is
/// given (its extension replaced by the encoded format when a size target
/// is set), else the input path with the output format's extension.
pub open spec fn final_output(
    input: PathView,
    exact: Option<PathView>,
    actual_format: Seq<char>,
    size_target: bool,
) -> PathView {
    match exact {
        Some(p) => if size_target {
            with_ext(p, actual_format)
        } else {
            p
        },
        None => with_ext(input, actual_format),
    }
}

/// Computes `final_output`.
pub fn final_output_path(
    input: &PathModel,
    exact: Option<&PathModel>,
    actual_format: &Vec<char>,
    size_target: bool,
) -> (r: PathModel)
    requires
        fits(input@),
        exact matches Some(p) ==> fits(p@),
    ensures
        r@ == final_output(
            input@,
            match exact {
                Some(p) => Some(p@),
                None => None,
            },
            actual_format@,
            size_target,
        ),
{
    match exact {
        Some(p) => {
            let mut q = p.duplicate();
            if size_target {
                q.set_extension(actual_format);
            }
            q
        },
        None => {
            let mut q = input.duplicate();
            q.set_extension(actual_format);
            q
        },
    }
}


/// Every path starts with the same anchor.
pub open spec fn same_anchor(files: Seq<PathView>) -> bool {
    forall|i: int| 0 <= i < files.len() ==> (#[trigger] files[i]).anchor == files[0].anchor
}

proof fn lemma_starts_with_trans(p: PathView, q: PathView, r: PathView)
    requires
        starts_with(p, q),
        starts_with(q, r),
    ensures
        starts_with(p, r),
{
    let n = comps(r).len() as int;
    assert(comps(p).take(n) =~= comps(q).take(n));
}

proof fn lemma_comps_popped(c: PathView)
    requires
        c.names.len() > 0,
    ensures
        comps(popped(c)) == comps(c).drop_last(),
{
    assert(comps(popped(c)) =~= comps(c).drop_last());
}

proof fn lemma_popped_prefix(c: PathView)
    ensures
        starts_with(c, popped(c)),
        popped(c).anchor == c.anchor,
{
    if c.names.len() > 0 {
        lemma_comps_popped(c);
        assert(comps(c).take(comps(c).len() - 1) =~= comps(c).drop_last());
    } else {
        assert(comps(c).take(comps(c).len() as int) =~= comps(c));
    }
}

proof fn lemma_shrink_prefix(c: PathView, fp: PathView)
    ensures
        starts_with(c, shrink(c, fp)),
        shrink(c, fp).anchor == c.anchor,
    decreases c.names.len(),
{
    if comps(c).len() == 0 || starts_with(fp, c) {
        assert(comps(c).take(comps(c).len() as int) =~= comps(c));
    } else if c.names.len() > 0 {
        lemma_shrink_prefix(popped(c), fp);
        lemma_popped_prefix(c);
        lemma_starts_with_trans(c, popped(c), shrink(popped(c), fp));
    } else {
        assert(comps(c).take(comps(c).len() as int) =~= comps(c));
    }
}

proof fn lemma_shrink_fits_folder(c: PathView, fp: PathView)
    requires
        c.anchor == fp.anchor,
    ensures
        starts_with(fp, shrink(c, fp)),
    decreases c.names.len(),
{
    if comps(c).len() == 0 {
        assert(comps(fp).take(0) =~= comps(c));
    } else if starts_with(fp, c) {
    } else if c.names.len() > 0 {
        lemma_popped_prefix(c);
        lemma_shrink_fits_folder(popped(c), fp);
    } else {
        assert(comps(c) =~= c.anchor);
        assert(comps(fp).take(comps(c).len() as int) =~= fp.anchor);
    }
}

proof fn lemma_shrink_keeps_common(c: PathView, fp: PathView, q: PathView)
    requires
        starts_with(c, q),
        starts_with(fp, q),
    ensures
        starts_with(shrink(c, fp), q),
    decreases c.names.len(),
{
    if comps(c).len() == 0 || starts_with(fp, c) {
    } else if c.names.len() > 0 {
        let n = comps(q).len() as int;
        if n == comps(c).len() {
            assert(comps(q) =~= comps(c));
            assert(starts_with(fp, c));
        }
        lemma_comps_popped(c);
        assert(comps(popped(c)).take(n) =~= comps(c).take(n));
        lemma_shrink_keeps_common(popped(c), fp, q);
    }
}

proof fn lemma_base_from(c: PathView, files: Seq<PathView>)
    requires
        forall|i: int| 0 <= i < files.len() ==> (#[trigger] files[i]).anchor == c.anchor,
    ensures
        starts_with(c, base_from(c, files)),
        base_from(c, files).anchor == c.anchor,
        forall|j: int| 0 <= j < files.len() ==> starts_with(popped(#[trigger] files[j]), base_from(c, files)),
    decreases files.len(),
{
    if files.len() == 0 {
        assert(comps(c).take(comps(c).len() as int) =~= comps(c));
    } else {
        let f0 = files[0];
        let c1 = shrink(c, popped(f0));
        let rest = files.drop_first();
        lemma_shrink_prefix(c, popped(f0));
        lemma_popped_prefix(f0);
        lemma_shrink_fits_folder(c, popped(f0));
        assert forall|i: int| 0 <= i < rest.len() implies (#[trigger] rest[i]).anchor == c1.anchor by {
            assert(rest[i] == files[i + 1]);
        }
        lemma_base_from(c1, rest);
        let r = base_from(c, files);
        assert(r == base_from(c1, rest));
        lemma_starts_with_trans(c, c1, r);
        assert forall|j: int| 0 <= j < files.len() implies starts_with(popped(#[trigger] files[j]), r) by {
            if j == 0 {
                lemma_starts_with_trans(popped(f0), c1, r);
            } else {
                assert(files[j] == rest[j - 1]);
            }
        }
    }
}

proof fn lemma_base_from_deepest(c: PathView, files: Seq<PathView>, q: PathView)
    requires
        starts_with(c, q),
        forall|j: int| 0 <= j < files.len() ==> starts_with(popped(#[trigger] files[j]), q),
    ensures
        starts_with(base_from(c, files), q),
    decreases files.len(),
{
    if files.len() > 0 {
        lemma_shrink_keeps_common(c, popped(files[0]), q);
        let rest = files.drop_first();
        assert forall|j: int| 0 <= j < rest.len() implies starts_with(popped(#[trigger] rest[j]), q) by {
            assert(rest[j] == files[j + 1]);
        }
        lemma_base_from_deepest(shrink(c, popped(files[0])), rest, q);
    }
}

/// Every file's folder lies under the batch base, when the files share their
/// anchor (the same root, or all relative).
pub proof fn law_base_contains_every_folder(files: Seq<PathView>, i: int)
    requires
        same_anchor(files),
        0 <= i < files.len(),
    ensures
        starts_with(popped(files[i]), common_base(files)),
{
    let c = popped(files[0]);
    let rest = files.drop_first();
    lemma_popped_prefix(files[0]);
    assert forall|k: int| 0 <= k < rest.len() implies (#[trigger] rest[k]).anchor == c.anchor by {
        assert(rest[k] == files[k + 1]);
    }
    lemma_base_from(c, rest);
    if i > 0 {
        assert(files[i] == rest[i - 1]);
    }
}

/// The batch base is the deepest folder that every file's folder lies under:
/// any folder that contains them all contains the base.
pub proof fn law_base_is_deepest(files: Seq<PathView>, q: PathView)
    requires
        files.len() > 0,
        forall|j: int| 0 <= j < files.len() ==> starts_with(popped(#[trigger] files[j]), q),
    ensures
        starts_with(common_base(files), q),
{
    let rest = files.drop_first();
    assert forall|j: int| 0 <= j < rest.len() implies starts_with(popped(#[trigger] rest[j]), q) by {
        assert(rest[j] == files[j + 1]);
    }
    assert(starts_with(popped(files[0]), q));
    lemma_base_from_deepest(popped(files[0]), rest, q);
}


proof fn lemma_base_anchor(files: Seq<PathView>)
    requires
        same_anchor(files),
        files.len() > 0,
    ensures
        common_base(files).anchor == files[0].anchor,
{
    let c = popped(files[0]);
    let rest = files.drop_first();
    lemma_popped_prefix(files[0]);
    assert forall|k: int| 0 <= k < rest.len() implies (#[trigger] rest[k]).anchor == c.anchor by {
        assert(rest[k] == files[k + 1]);
    }
    lemma_base_from(c, rest);
}

/// With a folder as output, each file of a batch is written inside it at
/// the file's place relative to the batch base, keeping its sub-folders,
/// under its own name with the target format's extension.
pub proof fn law_output_keeps_tree(
    files: Seq<PathView>,
    i: int,
    out_text: Seq<char>,
    out: PathView,
    out_is_dir: bool,
    format: Seq<char>,
)
    requires
        same_anchor(files),
        0 <= i < files.len(),
        is_dir_target(out_text, out, out_is_dir),
        file_name(files[i]) is Some,
    ensures
        ({
            let f = files[i];
            let base = common_base(files);
            planned_output(out_text, out, out_is_dir, f, base, format) == PathView {
                anchor: out.anchor,
                names: out.names + f.names.subrange(base.names.len() as int, f.names.len() - 1).push(
                    renamed(f.names.last(), format),
                ),
            }
        }),
{
    let f = files[i];
    let base = common_base(files);
    law_base_contains_every_folder(files, i);
    lemma_base_anchor(files);
    assert(files[i].anchor == files[0].anchor);
    lemma_popped_prefix(f);
    lemma_starts_with_trans(f, popped(f), base);
    // the base holds the whole anchor, so what is left is relative
    assert(comps(base).len() <= comps(popped(f)).len());
    assert(popped(f).names.len() == f.names.len() - 1);
    let k = comps(base).len() as int;
    let rel = after(f, k);
    assert(stripped(f, base) == Some(rel));
    assert(rel.anchor.len() == 0) by {
        if k <= f.anchor.len() {
            assert(k == f.anchor.len());
            assert(f.anchor.skip(k).len() == 0);
        }
    }
    assert(rel.names =~= f.names.skip(base.names.len() as int));
    let j = joined(out, rel);
    assert(j.names.last() == f.names.last());
    assert(file_name(j) == file_name(f));
    assert(j.names.drop_last() =~= out.names + f.names.subrange(
        base.names.len() as int,
        f.names.len() - 1,
    ));
}


proof fn lemma_last_dot_skips(s: Seq<char>, k: int, j: int)
    requires
        0 <= k <= j <= s.len(),
        forall|i: int| k <= i < j ==> s[i] != '.',
    ensures
        last_dot_before(s, j) == last_dot_before(s, k),
    decreases j - k,
{
    if j > k {
        lemma_last_dot_skips(s, k, j - 1);
    }
}

/// Giving a file a new extension and reading its extension back gives the
/// new one (for a non-empty extension without a `.`); the folder and the
/// stem stay.
pub proof fn law_set_then_read_extension(p: PathView, ext: Seq<char>)
    requires
        file_name(p) is Some,
        p.names.last().len() > 0,
        ext.len() > 0,
        !ext.contains('.'),
    ensures
        extension(with_ext(p, ext)) == Some(ext),
        popped(with_ext(p, ext)) == popped(p),
        file_name(with_ext(p, ext)) == Some(stem_of(p.names.last()).push('.') + ext),
{
    let name = p.names.last();
    let stem = stem_of(name);
    lemma_last_dot_range(name, name.len() as int);
    assert(stem.len() > 0);
    let r = stem.push('.') + ext;
    assert(r.len() == stem.len() + 1 + ext.len());
    assert forall|i: int| stem.len() + 1 <= i < r.len() implies r[i] != '.' by {
        assert(r[i] == ext[i - stem.len() - 1]);
    }
    lemma_last_dot_skips(r, stem.len() as int + 1, r.len() as int);
    assert(r[stem.len() as int] == '.');
    assert(last_dot(r) == stem.len());
    assert(r.skip(stem.len() as int + 1) =~= ext);
    assert(r != "."@ && r != ".."@) by {
        reveal_strlit(".");
        reveal_strlit("..");
        if r == "."@ || r == ".."@ {
            assert(r.len() <= 2);
            assert(r[0] == '.');
            assert(stem[0] == '.');
        }
    }
    let q = with_ext(p, ext);
    assert(q.names.last() == r);
    assert(q.names.drop_last() =~= p.names.drop_last());
}

/// A conversion in place writes next to its input: only the file name changes.
pub proof fn law_in_place_stays_in_folder(input: PathView, actual_format: Seq<char>)
    ensures
        popped(final_output(input, None, actual_format, false)) == popped(input),
        popped(final_output(input, None, actual_format, true)) == popped(input),
{
    let q = with_ext(input, actual_format);
    if file_name(input) is Some {
        assert(q.names.drop_last() =~= input.names.drop_last());
    }
}

/// Without an exact output path a conversion writes its input's name with
/// the written format as the extension, with or without a size target, in
/// the input's own folder.
pub proof fn law_in_place_takes_new_extension(input: PathView, format: Seq<char>, size_target: bool)
    requires
        file_name(input) is Some,
        input.names.last().len() > 0,
        format.len() > 0,
        !format.contains('.'),
    ensures
        extension(final_output(input, None, format, size_target)) == Some(format),
        popped(final_output(input, None, format, size_target)) == popped(input),
{
    law_set_then_read_extension(input, format);
}

} // verus!
