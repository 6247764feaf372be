//! AML name strings: paths of four-byte name segments.
use vstd::prelude::*;
use super::AmlError;
use super::stream::AmlStream;
use vstd::string::StringSliceAdditionalSpecFns;

verus! {

broadcast use vstd::array::group_array_axioms;

/// How a name string is anchored.
#[derive(Clone, Copy, PartialEq, Eq, Debug, Structural)]
pub enum NameStringFlag {
    SingleRelativePath,
    RelativePath,
    AbsolutePath,
    NullName,
}

/// A path of name segments. Each segment holds four bytes; trailing `_`
/// padding after the first byte is stored as zero bytes.
#[derive(Debug)]
pub struct NameString {
    data: Vec<[u8; 4]>,
    flag: NameStringFlag,
}

pub const ROOT_CHAR: u8 = 0x5C;

pub const PARENT_PREFIX_CHAR: u8 = 0x5E;

pub const DUAL_NAME_PREFIX: u8 = 0x2E;

pub const MULTI_NAME_PREFIX: u8 = 0x2F;

pub const NORMAL_LIMIT: usize = 7;

pub open spec fn is_upper(c: u8) -> bool {
    0x41 <= c <= 0x5A
}

pub open spec fn is_digit(c: u8) -> bool {
    0x30 <= c <= 0x39
}

/// A byte that may stand at `slot` (0 to 3) of a name segment.
pub open spec fn is_name_char(c: u8, first: bool) -> bool {
    if first {
        is_upper(c) || c == 0x5F
    } else {
        is_upper(c) || is_digit(c) || c == 0x5F
    }
}

/// A segment with the trailing `_` of its bytes 1 to 3 replaced by zeros.
pub open spec fn trim_underscores(e: [u8; 4]) -> [u8; 4] {
    if e[3] != 0x5F {
        e
    } else if e[2] != 0x5F {
        [e[0], e[1], e[2], 0]
    } else if e[1] != 0x5F {
        [e[0], e[1], 0, 0]
    } else {
        [e[0], 0, 0, 0]
    }
}

/// The outcome of reading a name string from bytes.
pub enum NameParse {
    Done(int, Seq<[u8; 4]>, NameStringFlag),
    OutOfRange,
    BadChar,
}

/// The number of consecutive `^` from `p` before `end`.
pub open spec fn caret_run(s: Seq<u8>, p: int, end: int) -> int
    decreases end - p,
{
    if p < end && s[p] == PARENT_PREFIX_CHAR {
        1 + caret_run(s, p + 1, end)
    } else {
        0
    }
}

/// Checks the bytes `q + k .. q + total` of the segments: `None` when all are
/// name characters and readable, `Some(true)` when one lies past `end`, and
/// `Some(false)` when one is not a name character.
pub open spec fn scan_segments(s: Seq<u8>, end: int, q: int, total: int, k: int) -> Option<bool>
    decreases total - k,
{
    if k >= total {
        None
    } else if k > 0 && q + k >= end {
        Some(true)
    } else if !is_name_char(s[q + k], k % 4 == 0) {
        Some(false)
    } else {
        scan_segments(s, end, q, total, k + 1)
    }
}

/// The `num` segments stored from `q`.
pub open spec fn segments_at(s: Seq<u8>, q: int, num: nat) -> Seq<[u8; 4]> {
    Seq::new(num, |i: int| trim_underscores([s[q + 4 * i], s[q + 4 * i + 1], s[q + 4 * i + 2], s[q + 4 * i + 3]]))
}

/// `base` with its last `k` segments removed.
pub open spec fn up_levels(base: Seq<[u8; 4]>, k: int) -> Seq<[u8; 4]> {
    if k >= base.len() {
        Seq::empty()
    } else {
        base.subrange(0, base.len() - k)
    }
}

/// Reads `num` segments from `start`, whose first byte was already read.
pub open spec fn finish_segments(
    s: Seq<u8>,
    end: int,
    start: int,
    num: nat,
    base: Seq<[u8; 4]>,
    flag: NameStringFlag,
) -> NameParse {
    if num == 0 {
        NameParse::Done(start + 1, base, flag)
    } else {
        match scan_segments(s, end, start, 4 * num as int, 0) {
            Some(true) => NameParse::OutOfRange,
            Some(false) => NameParse::BadChar,
            None => NameParse::Done(start + 4 * num, base + segments_at(s, start, num), flag),
        }
    }
}

/// The result of reading a name string at `p` in the window ending at `end`,
/// relative to `scope` (its segments and flag) when given.
pub open spec fn spec_parse_name(
    s: Seq<u8>,
    p: int,
    end: int,
    scope: Option<(Seq<[u8; 4]>, NameStringFlag)>,
) -> NameParse {
    if p >= end {
        NameParse::OutOfRange
    } else {
        let is_root = s[p] == ROOT_CHAR;
        let k = if is_root { 0 } else { caret_run(s, p, end) };
        let q = if is_root { p + 1 } else { p + k };
        let may_be_null = !is_root && k == 0;
        let (base0, flag0) = if is_root {
            (Seq::<[u8; 4]>::empty(), NameStringFlag::AbsolutePath)
        } else {
            match scope {
                Some((segs, f)) => if f != NameStringFlag::NullName {
                    (segs, f)
                } else {
                    (Seq::<[u8; 4]>::empty(), NameStringFlag::RelativePath)
                },
                None => (Seq::<[u8; 4]>::empty(), NameStringFlag::RelativePath),
            }
        };
        let base = up_levels(base0, k);
        if q >= end {
            NameParse::OutOfRange
        } else {
            let c = s[q];
            if c == 0 {
                if may_be_null {
                    NameParse::Done(q + 1, base, NameStringFlag::NullName)
                } else {
                    NameParse::Done(q + 1, base, flag0)
                }
            } else if c == DUAL_NAME_PREFIX {
                if q + 1 >= end {
                    NameParse::OutOfRange
                } else {
                    finish_segments(s, end, q + 1, 2, base, flag0)
                }
            } else if c == MULTI_NAME_PREFIX {
                if q + 2 >= end {
                    NameParse::OutOfRange
                } else {
                    finish_segments(s, end, q + 2, s[q + 1] as nat, base, flag0)
                }
            } else {
                finish_segments(
                    s,
                    end,
                    q,
                    1,
                    base,
                    if may_be_null {
                        NameStringFlag::SingleRelativePath
                    } else {
                        flag0
                    },
                )
            }
        }
    }
}

/// The parts of `b` between `.` separators (an empty input has one empty part).
pub open spec fn split_dots(b: Seq<u8>) -> Seq<Seq<u8>>
    decreases b.len(),
{
    if b.len() == 0 {
        seq![Seq::<u8>::empty()]
    } else {
        let r = split_dots(b.drop_last());
        if b.last() == 0x2E {
            r.push(Seq::<u8>::empty())
        } else {
            r.update(r.len() - 1, r.last().push(b.last()))
        }
    }
}

pub proof fn lemma_split_dots_nonempty(b: Seq<u8>)
    ensures
        split_dots(b).len() >= 1,
    decreases b.len(),
{
    if b.len() > 0 {
        lemma_split_dots_nonempty(b.drop_last());
    }
}

/// Some part is longer than four bytes.
pub open spec fn has_long_part(parts: Seq<Seq<u8>>) -> bool {
    exists|j: int| 0 <= j < parts.len() && #[trigger] parts[j].len() > 4
}

/// A part of at most four bytes as a segment: padded with zeros, then trimmed.
pub open spec fn part_to_segment(e: Seq<u8>) -> [u8; 4] {
    trim_underscores(
        [
            if e.len() > 0 { e[0] } else { 0 },
            if e.len() > 1 { e[1] } else { 0 },
            if e.len() > 2 { e[2] } else { 0 },
            if e.len() > 3 { e[3] } else { 0 },
        ],
    )
}

/// The segments of the non-empty parts.
pub open spec fn parts_to_segments(parts: Seq<Seq<u8>>) -> Seq<[u8; 4]>
    decreases parts.len(),
{
    if parts.len() == 0 {
        Seq::empty()
    } else {
        let rest = parts_to_segments(parts.drop_last());
        if parts.last().len() == 0 {
            rest
        } else {
            rest.push(part_to_segment(parts.last()))
        }
    }
}

impl NameString {
    /// The segments.
    pub closed spec fn segs(&self) -> Seq<[u8; 4]> {
        self.data@
    }

    pub closed spec fn spec_flag(&self) -> NameStringFlag {
        self.flag
    }

    pub open spec fn is_null(&self) -> bool {
        self.spec_flag() == NameStringFlag::NullName
    }

    /// The segments that can be read out: none for a null name.
    pub open spec fn elems(&self) -> Seq<[u8; 4]> {
        if self.is_null() {
            Seq::empty()
        } else {
            self.segs()
        }
    }

    pub open spec fn same(&self, other: &Self) -> bool {
        self.segs() == other.segs() && self.spec_flag() == other.spec_flag()
    }

    /// What `==` means on name strings: two null names are equal; otherwise the
    /// segment counts agree and so do the segments that can be read out.
    pub open spec fn spec_eq(&self, other: &Self) -> bool {
        ||| (self.is_null() && other.is_null())
        ||| (self.segs().len() == other.segs().len() && (self.segs().len() == 0 || (
        !self.is_null() && !other.is_null() && self.segs() == other.segs())))
    }

    /// `child` lies strictly below this path.
    pub open spec fn spec_is_child(&self, child: &Self) -> bool {
        &&& self.elems().len() < child.elems().len()
        &&& child.elems().subrange(0, self.elems().len() as int) == self.elems()
    }

    /// Builds a name string from its parts.
    pub fn from_parts(data: Vec<[u8; 4]>, flag: NameStringFlag) -> (r: Self)
        ensures
            r.segs() == data@,
            r.spec_flag() == flag,
    {
        NameString { data, flag }
    }

    pub fn get_flag(&self) -> (r: NameStringFlag)
        ensures
            r == self.spec_flag(),
    {
        self.flag
    }

    /// A copy with the same segments and flag.
    pub fn copy(&self) -> (r: Self)
        ensures
            r.same(self),
    {
        NameString { data: copy_segments(&self.data), flag: self.flag }
    }

    /// The root path `\`.
    pub fn root() -> (r: Self)
        ensures
            r.segs() == Seq::<[u8; 4]>::empty(),
            r.spec_flag() == NameStringFlag::AbsolutePath,
    {
        NameString { data: Vec::new(), flag: NameStringFlag::AbsolutePath }
    }

    /// The empty relative path.
    pub fn current() -> (r: Self)
        ensures
            r.segs() == Seq::<[u8; 4]>::empty(),
            r.spec_flag() == NameStringFlag::RelativePath,
    {
        NameString { data: Vec::new(), flag: NameStringFlag::RelativePath }
    }

    pub fn is_null_name(&self) -> (r: bool)
        ensures
            r == self.is_null(),
    {
        self.flag == NameStringFlag::NullName
    }

    pub fn is_root(&self) -> (r: bool)
        ensures
            r == (self.spec_flag() == NameStringFlag::AbsolutePath && self.segs().len() == 0),
    {
        self.flag == NameStringFlag::AbsolutePath && self.data.len() == 0
    }

    pub fn len(&self) -> (r: usize)
        ensures
            r == self.segs().len(),
    {
        self.data.len()
    }

    pub fn is_absolute_path(&self) -> (r: bool)
        ensures
            r == (self.spec_flag() == NameStringFlag::AbsolutePath),
    {
        self.flag == NameStringFlag::AbsolutePath
    }

    pub fn is_single_relative_path_name(&self) -> (r: bool)
        ensures
            r == (self.spec_flag() == NameStringFlag::SingleRelativePath),
    {
        self.flag == NameStringFlag::SingleRelativePath
    }

    /// Reads a name string from `stream`. A relative path starts from
    /// `current_scope` unless that is absent or a null name.
    pub fn parse(stream: &mut AmlStream, current_scope: Option<&Self>) -> (r: Result<Self, AmlError>)
        requires
            old(stream).wf(),
        ensures
            final(stream).wf(),
            old(stream).same_window(final(stream)),
            r is Ok ==> final(stream).pos() > old(stream).pos(),
            ({
                let scope = match current_scope {
                    Some(c) => Some((c.segs(), c.spec_flag())),
                    None => None,
                };
                match spec_parse_name(old(stream).bytes(), old(stream).pos(), old(stream).end(), scope) {
                    NameParse::Done(p, segs, flag) => r matches Ok(n) && n.segs() == segs
                        && n.spec_flag() == flag && final(stream).pos() == p,
                    NameParse::OutOfRange => r matches Err(e) && e is AccessOutOfRange,
                    NameParse::BadChar => r matches Err(e) && e is InvalidType,
                }
            }),
    {
        let ghost s = stream.bytes();
        let ghost p = stream.pos();
        let ghost end = stream.end();
        let ghost scope_v = match current_scope {
            Some(cs) => Some((cs.segs(), cs.spec_flag())),
            None => None,
        };
        let mut c = stream.read_byte()?;
        let mut may_be_null_name = true;
        let mut segments: Vec<[u8; 4]>;
        let mut flag: NameStringFlag;
        let ghost mut k: int = 0;
        let ghost mut base0: Seq<[u8; 4]> = Seq::empty();
        let is_root = c == ROOT_CHAR;
        if is_root {
            may_be_null_name = false;
            segments = Vec::new();
            flag = NameStringFlag::AbsolutePath;
            c = stream.read_byte()?;
        } else {
            segments = Vec::new();
            flag = NameStringFlag::RelativePath;
            match current_scope {
                Some(c_s) => {
                    if !c_s.is_null_name() {
                        segments = copy_segments(&c_s.data);
                        flag = c_s.flag;
                    }
                },
                None => {},
            }
            proof {
                base0 = segments@;
                reveal_with_fuel(caret_run, 2);
            }
            while c == PARENT_PREFIX_CHAR
                invariant
                    stream.wf(),
                    stream.bytes() == s,
                    stream.end() == end,
                    s == old(stream).bytes(),
                    p == old(stream).pos(),
                    end == old(stream).end(),
                    stream.pos() == p + k + 1,
                    0 <= k,
                    p + k < end,
                    c == s[p + k],
                    s[p] != ROOT_CHAR,
                    caret_run(s, p, end) == k + caret_run(s, p + k, end),
                    segments@ == up_levels(base0, k),
                    may_be_null_name == (k == 0),
                decreases end - (p + k),
            {
                may_be_null_name = false;
                if segments.len() > 0 {
                    segments.pop();
                }
                assert(segments@ =~= up_levels(base0, k + 1));
                let r = stream.read_byte();
                proof {
                    reveal_with_fuel(caret_run, 2);
                }
                match r {
                    Ok(b) => {
                        c = b;
                    },
                    Err(e) => {
                        proof {
                            k = k + 1;
                            assert(caret_run(s, p + k, end) == 0);
                            assert(caret_run(s, p, end) == k);
                        }
                        return Err(e);
                    },
                }
                proof {
                    k = k + 1;
                }
            }
            proof {
                reveal_with_fuel(caret_run, 2);
                assert(caret_run(s, p + k, end) == 0);
            }
        }
        let ghost q = stream.pos() - 1;
        proof {
            assert(q < end && c == s[q]);
            assert(is_root == (s[p] == ROOT_CHAR));
            if is_root {
                assert(q == p + 1);
            } else {
                assert(caret_run(s, p, end) == k);
                assert(q == p + k);
            }
        }
        if c == 0x00 {
            if may_be_null_name {
                return Ok(NameString { data: segments, flag: NameStringFlag::NullName });
            } else {
                return Ok(NameString { data: segments, flag });
            }
        }
        let num_name_path: u8 = if c == DUAL_NAME_PREFIX {
            c = stream.read_byte()?;
            2
        } else if c == MULTI_NAME_PREFIX {
            let seg_count = stream.read_byte()?;
            c = stream.read_byte()?;
            seg_count
        } else {
            if may_be_null_name {
                flag = NameStringFlag::SingleRelativePath;
            }
            1
        };
        let ghost start = stream.pos() - 1;
        let ghost base = segments@;
        assert(spec_parse_name(s, p, end, scope_v) == finish_segments(
            s,
            end,
            start,
            num_name_path as nat,
            base,
            flag,
        ));
        if num_name_path == 0 {
            return Ok(NameString { data: segments, flag });
        }
        let mut count: u8 = 0;
        while count < num_name_path
            invariant
                stream.wf(),
                stream.bytes() == s,
                stream.end() == end,
                s == old(stream).bytes(),
                p == old(stream).pos(),
                end == old(stream).end(),
                p <= start,
                0 <= start < end,
                spec_parse_name(s, p, end, scope_v) == finish_segments(
                    s,
                    end,
                    start,
                    num_name_path as nat,
                    base,
                    flag,
                ),
                count <= num_name_path,
                count == 0 ==> c == s[start],
                stream.pos() == start + 4 * count + (if count == 0 { 1int } else { 0int }),
                scan_segments(s, end, start, 4 * num_name_path, 0) == scan_segments(
                    s,
                    end,
                    start,
                    4 * num_name_path,
                    4 * count as int,
                ),
                segments@ == base + segments_at(s, start, count as nat),
            decreases num_name_path - count,
        {
            let ghost k0 = 4 * count as int;
            if count != 0 {
                c = stream.read_byte()?;
            }
            if !(is_upper_byte(c) || c == 0x5F) {
                return Err(AmlError::InvalidType);
            }
            let mut name: [u8; 4] = [c, 0, 0, 0];
            let mut i: usize = 1;
            while i < 4
                invariant
                    stream.wf(),
                    stream.bytes() == s,
                    stream.end() == end,
                    s == old(stream).bytes(),
                    p == old(stream).pos(),
                    end == old(stream).end(),
                    p <= start,
                    0 <= start < end,
                    spec_parse_name(s, p, end, scope_v) == finish_segments(
                        s,
                        end,
                        start,
                        num_name_path as nat,
                        base,
                        flag,
                    ),
                    segments@ == base + segments_at(s, start, count as nat),
                    k0 % 4 == 0,
                    1 <= i <= 4,
                    stream.pos() == start + k0 + i,
                    scan_segments(s, end, start, 4 * num_name_path, 0) == scan_segments(
                        s,
                        end,
                        start,
                        4 * num_name_path,
                        k0 + i,
                    ),
                    forall|j: int| 0 <= j < i ==> name[j] == s[start + k0 + j],
                    k0 == 4 * count,
                    count < num_name_path,
                decreases 4 - i,
            {
                let b = stream.read_byte()?;
                if !(is_upper_byte(b) || is_digit_byte(b) || b == 0x5F) {
                    return Err(AmlError::InvalidType);
                }
                name[i] = b;
                i = i + 1;
            }
            let ghost raw = name;
            delete_extra_under_score(&mut name);
            proof {
                assert(raw =~= [s[start + k0], s[start + k0 + 1], s[start + k0 + 2], s[start + k0 + 3]]);
            }
            segments.push(name);
            count = count + 1;
            assert(segments@ =~= base + segments_at(s, start, count as nat));
        }
        Ok(NameString { data: segments, flag })
    }
}

impl NameString {
    /// The segment at `index`, unless this is a null name or `index` is past the end.
    pub fn get_element(&self, index: usize) -> (r: Option<[u8; 4]>)
        ensures
            r == (if self.is_null() || index >= self.segs().len() {
                None
            } else {
                Some(self.segs()[index as int])
            }),
    {
        if self.flag == NameStringFlag::NullName {
            return None;
        }
        if index >= self.data.len() {
            None
        } else {
            Some(self.data[index])
        }
    }

    /// The segment at `index` as a single-segment relative name.
    pub fn get_element_as_name_string(&self, index: usize) -> (r: Option<Self>)
        ensures
            r is Some <==> !self.is_null() && index < self.segs().len(),
            r matches Some(n) ==> n.segs() == seq![self.segs()[index as int]] && n.spec_flag()
                == NameStringFlag::SingleRelativePath,
    {
        match self.get_element(index) {
            Some(e) => {
                let mut v: Vec<[u8; 4]> = Vec::new();
                v.push(e);
                assert(v@ =~= seq![self.segs()[index as int]]);
                Some(NameString { data: v, flag: NameStringFlag::SingleRelativePath })
            },
            None => None,
        }
    }

    /// The last segment as a single-segment relative name.
    pub fn get_last_element(&self) -> (r: Option<Self>)
        ensures
            r is Some <==> !self.is_null() && self.segs().len() > 0,
            r matches Some(n) ==> n.segs() == seq![self.segs().last()] && n.spec_flag()
                == NameStringFlag::SingleRelativePath,
    {
        if self.data.len() == 0 {
            None
        } else {
            self.get_element_as_name_string(self.data.len() - 1)
        }
    }

    /// For a single-segment relative name, that segment as a name.
    pub fn get_single_name_path(&self) -> (r: Option<Self>)
        ensures
            r is Some <==> self.spec_flag() == NameStringFlag::SingleRelativePath && self.segs().len()
                > 0,
            r matches Some(n) ==> n.segs() == seq![self.segs().last()] && n.spec_flag()
                == NameStringFlag::SingleRelativePath,
    {
        if self.flag == NameStringFlag::SingleRelativePath {
            self.get_last_element()
        } else {
            None
        }
    }

    /// Whether `child` lies strictly below this path.
    pub fn is_child(&self, child: &Self) -> (r: bool)
        ensures
            r == self.spec_is_child(child),
    {
        let mut index: usize = 0;
        let n = self.data.len();
        loop
            invariant
                n == self.segs().len(),
                index <= self.elems().len(),
                child.elems().len() >= index,
                child.elems().subrange(0, index as int) == self.elems().subrange(0, index as int),
            decreases self.elems().len() - index,
        {
            let s1 = self.get_element(index);
            let s2 = child.get_element(index);
            match s1 {
                None => {
                    assert(self.elems().subrange(0, index as int) =~= self.elems());
                    return s2.is_some();
                },
                Some(a) => {
                    match s2 {
                        None => {
                            return false;
                        },
                        Some(b) => {
                            if !seg_eq(&a, &b) {
                                proof {
                                    if child.elems().len() > self.elems().len() {
                                        assert(child.elems().subrange(0, self.elems().len() as int)[index as int]
                                            == child.elems()[index as int]);
                                    }
                                }
                                return false;
                            }
                        },
                    }
                },
            }
            assert(child.elems().subrange(0, index + 1) =~= child.elems().subrange(0, index as int).push(
                child.elems()[index as int],
            ));
            assert(self.elems().subrange(0, index + 1) =~= self.elems().subrange(0, index as int).push(
                self.elems()[index as int],
            ));
            index = index + 1;
        }
    }

    /// Whether the last segments of the two names agree as far as the shorter
    /// one reaches; true when either is a null name.
    pub fn suffix_search(&self, other: &Self) -> (r: bool)
        ensures
            r == (self.is_null() || other.is_null() || suffix_match(self.segs(), other.segs())),
    {
        if self.flag == NameStringFlag::NullName || other.flag == NameStringFlag::NullName {
            return true;
        }
        let n1 = self.data.len();
        let n2 = other.data.len();
        let mut t: usize = 0;
        while t < n1 && t < n2
            invariant
                n1 == self.segs().len(),
                n2 == other.segs().len(),
                !self.is_null(),
                !other.is_null(),
                t <= n1,
                t <= n2,
                forall|u: int| 0 <= u < t ==> from_end(self.segs(), u) == from_end(other.segs(), u),
            decreases n1 - t,
        {
            if !seg_eq(&self.data[n1 - 1 - t], &other.data[n2 - 1 - t]) {
                assert(self.data@[n1 - 1 - t] == from_end(self.segs(), t as int));
                assert(other.data@[n2 - 1 - t] == from_end(other.segs(), t as int));
                assert(from_end(self.segs(), t as int) != from_end(other.segs(), t as int));
                assert(!suffix_match(self.segs(), other.segs()));
                return false;
            }
            t = t + 1;
        }
        true
    }

    /// This path without its last segment (unchanged when it has none).
    pub fn get_scope_name(&self) -> (r: Self)
        ensures
            r.spec_flag() == self.spec_flag(),
            r.segs() == (if self.segs().len() == 0 {
                self.segs()
            } else {
                self.segs().drop_last()
            }),
    {
        let mut r = self.copy();
        r.up_to_parent_name_space();
        r
    }

    /// Removes the last segment, if any.
    pub fn up_to_parent_name_space(&mut self)
        ensures
            final(self).spec_flag() == old(self).spec_flag(),
            final(self).segs() == (if old(self).segs().len() == 0 {
                old(self).segs()
            } else {
                old(self).segs().drop_last()
            }),
    {
        if self.data.len() > 0 {
            self.data.pop();
        }
    }

    /// The same segments as an absolute path.
    pub fn to_be_absolute_path(&self) -> (r: Self)
        ensures
            r.segs() == self.segs(),
            r.spec_flag() == NameStringFlag::AbsolutePath,
    {
        NameString { data: copy_segments(&self.data), flag: NameStringFlag::AbsolutePath }
    }

    /// A name from a list of segments. Under seven segments, an empty relative
    /// list is a null name and a list of one a single-segment name.
    pub fn from_array(array: &[[u8; 4]], is_absolute: bool) -> (r: Self)
        ensures
            r.segs() == array@,
            r.spec_flag() == (if is_absolute {
                NameStringFlag::AbsolutePath
            } else if array@.len() >= NORMAL_LIMIT {
                NameStringFlag::RelativePath
            } else if array@.len() == 0 {
                NameStringFlag::NullName
            } else if array@.len() == 1 {
                NameStringFlag::SingleRelativePath
            } else {
                NameStringFlag::RelativePath
            }),
    {
        let mut v: Vec<[u8; 4]> = Vec::new();
        let mut i: usize = 0;
        while i < array.len()
            invariant
                i <= array@.len(),
                v@ == array@.subrange(0, i as int),
            decreases array@.len() - i,
        {
            v.push(array[i]);
            i = i + 1;
            assert(v@ =~= array@.subrange(0, i as int));
        }
        assert(v@ =~= array@);
        let flag = if is_absolute {
            NameStringFlag::AbsolutePath
        } else if array.len() >= NORMAL_LIMIT {
            NameStringFlag::RelativePath
        } else if array.len() == 0 {
            NameStringFlag::NullName
        } else if array.len() == 1 {
            NameStringFlag::SingleRelativePath
        } else {
            NameStringFlag::RelativePath
        };
        NameString { data: v, flag }
    }
}

impl NameString {
    /// The path of `self` relative to `scope_name`, when `self` lies below it.
    /// Past seven segments only the first seven and the last are kept.
    pub fn get_relative_name(&self, scope_name: &Self) -> (r: Option<Self>)
        ensures
            r is Some <==> scope_name.spec_is_child(self),
            r matches Some(n) ==> {
                let rel = self.elems().subrange(scope_name.elems().len() as int, self.elems().len() as int);
                &&& n.segs() == (if rel.len() <= NORMAL_LIMIT {
                    rel
                } else {
                    rel.subrange(0, NORMAL_LIMIT as int).push(rel.last())
                })
                &&& n.spec_flag() == (if rel.len() == 1 {
                    NameStringFlag::SingleRelativePath
                } else {
                    NameStringFlag::RelativePath
                })
            },
    {
        if !scope_name.is_child(self) {
            return None;
        }
        let ghost rel = self.elems().subrange(scope_name.elems().len() as int, self.elems().len() as int);
        let start = if scope_name.flag == NameStringFlag::NullName {
            0
        } else {
            scope_name.data.len()
        };
        let total = self.data.len();
        let mut v: Vec<[u8; 4]> = Vec::new();
        let mut i: usize = start;
        while i < total
            invariant
                !self.is_null(),
                start == scope_name.elems().len(),
                total == self.segs().len(),
                start < total,
                start <= i <= total,
                rel == self.segs().subrange(start as int, total as int),
                v@ == (if i - start <= NORMAL_LIMIT {
                    rel.subrange(0, i - start)
                } else {
                    rel.subrange(0, NORMAL_LIMIT as int).push(rel[i - start - 1])
                }),
            decreases total - i,
        {
            if i - start >= NORMAL_LIMIT {
                if v.len() > NORMAL_LIMIT {
                    v.pop();
                }
                v.push(self.data[i]);
            } else {
                v.push(self.data[i]);
            }
            i = i + 1;
            assert(v@ =~= (if i - start <= NORMAL_LIMIT {
                rel.subrange(0, i - start)
            } else {
                rel.subrange(0, NORMAL_LIMIT as int).push(rel[i - start - 1])
            }));
        }
        let flag = if total - start == 1 {
            NameStringFlag::SingleRelativePath
        } else {
            NameStringFlag::RelativePath
        };
        Some(NameString { data: v, flag })
    }

    /// `self` appended to `scope_name`. A null name on either side gives a copy
    /// of the other. The result is absolute when asked for, else keeps the
    /// single-segment flag of `self` or the flag of `scope_name`.
    pub fn get_full_name_path(&self, scope_name: &Self, should_to_be_absolute_path: bool) -> (r: Self)
        ensures
            self.is_null() ==> r.same(scope_name),
            !self.is_null() && scope_name.is_null() ==> r.same(self),
            !self.is_null() && !scope_name.is_null() ==> r.segs() == scope_name.segs() + self.segs()
                && r.spec_flag() == (if should_to_be_absolute_path {
                NameStringFlag::AbsolutePath
            } else if self.spec_flag() == NameStringFlag::SingleRelativePath {
                NameStringFlag::SingleRelativePath
            } else {
                scope_name.spec_flag()
            }),
    {
        if self.flag == NameStringFlag::NullName {
            return scope_name.copy();
        } else if scope_name.flag == NameStringFlag::NullName {
            return self.copy();
        }
        let mut v = copy_segments(&scope_name.data);
        let mut i: usize = 0;
        while i < self.data.len()
            invariant
                i <= self.segs().len(),
                v@ == scope_name.segs() + self.segs().subrange(0, i as int),
            decreases self.segs().len() - i,
        {
            v.push(self.data[i]);
            i = i + 1;
            assert(v@ =~= scope_name.segs() + self.segs().subrange(0, i as int));
        }
        assert(self.segs().subrange(0, i as int) =~= self.segs());
        let mut flag = scope_name.flag;
        if self.flag == NameStringFlag::SingleRelativePath {
            flag = NameStringFlag::SingleRelativePath;
        }
        if should_to_be_absolute_path {
            flag = NameStringFlag::AbsolutePath;
        }
        NameString { data: v, flag }
    }

    /// Reads a dotted path such as `\\_SB.PCI0`; fails when a part is longer
    /// than four bytes. Empty parts are skipped.
    pub fn from_string(s: &str) -> (r: Option<Self>)
        ensures
            ({
                let b = s.spec_bytes();
                let is_abs = b.len() > 0 && b[0] == ROOT_CHAR;
                let parts = split_dots(if is_abs { b.drop_first() } else { b });
                &&& r is Some <==> !has_long_part(parts)
                &&& r matches Some(n) ==> n.segs() == parts_to_segments(parts) && n.spec_flag() == (
                if is_abs {
                    NameStringFlag::AbsolutePath
                } else if parts.len() >= NORMAL_LIMIT {
                    NameStringFlag::RelativePath
                } else if parts.len() == 1 {
                    NameStringFlag::SingleRelativePath
                } else {
                    NameStringFlag::RelativePath
                })
            }),
    {
        Self::from_bytes(s.as_bytes())
    }

    /// `from_string` on the bytes of the string.
    pub fn from_bytes(b: &[u8]) -> (r: Option<Self>)
        ensures
            ({
                let is_abs = b@.len() > 0 && b@[0] == ROOT_CHAR;
                let parts = split_dots(if is_abs { b@.drop_first() } else { b@ });
                &&& r is Some <==> !has_long_part(parts)
                &&& r matches Some(n) ==> n.segs() == parts_to_segments(parts) && n.spec_flag() == (
                if is_abs {
                    NameStringFlag::AbsolutePath
                } else if parts.len() >= NORMAL_LIMIT {
                    NameStringFlag::RelativePath
                } else if parts.len() == 1 {
                    NameStringFlag::SingleRelativePath
                } else {
                    NameStringFlag::RelativePath
                })
            }),
    {
        let is_absolute = b.len() > 0 && b[0] == ROOT_CHAR;
        let first: usize = if is_absolute { 1 } else { 0 };
        let ghost rest = if is_absolute { b@.drop_first() } else { b@ };
        let mut segments: Vec<[u8; 4]> = Vec::new();
        let mut cur: Vec<u8> = Vec::new();
        let mut count: usize = 1;
        let mut too_long = false;
        let ghost mut done: Seq<Seq<u8>> = Seq::empty();
        let mut i: usize = first;
        assert(rest.subrange(0, 0) =~= Seq::<u8>::empty());
        while i < b.len()
            invariant
                first <= i <= b@.len(),
                first == (if is_absolute { 1int } else { 0int }),
                rest == b@.subrange(first as int, b@.len() as int),
                split_dots(rest.subrange(0, i - first)) == done.push(cur@),
                count == (if done.len() + 1 < NORMAL_LIMIT {
                    done.len() + 1int
                } else {
                    NORMAL_LIMIT as int
                }),
                !too_long ==> segments@ == parts_to_segments(done),
                too_long == has_long_part(done),

            decreases b@.len() - i,
        {
            let c = b[i];
            let ghost pre = rest.subrange(0, i - first);
            assert(rest.subrange(0, i + 1 - first).drop_last() =~= pre);
            if c == 0x2E {
                if cur.len() > 4 {
                    too_long = true;
                } else if cur.len() > 0 {
                    segments.push(to_u8_4_array(&cur));
                }
                proof {
                    assert(has_long_part(done.push(cur@)) == (has_long_part(done) || cur@.len() > 4))
                        by {
                        if cur@.len() > 4 {
                            assert(done.push(cur@)[done.len() as int].len() > 4);
                        }
                        if has_long_part(done.push(cur@)) {
                            let j = choose|j: int| 0 <= j < done.push(cur@).len() && #[trigger] done.push(
                                cur@,
                            )[j].len() > 4;
                            if j < done.len() {
                                assert(done[j].len() > 4);
                            }
                        }
                        if has_long_part(done) {
                            let j = choose|j: int| 0 <= j < done.len() && #[trigger] done[j].len() > 4;
                            assert(done.push(cur@)[j].len() > 4);
                        }
                    }
                    assert(done.push(cur@).drop_last() =~= done);
                    done = done.push(cur@);
                }
                cur = Vec::new();
                if count < NORMAL_LIMIT {
                    count = count + 1;
                }
            } else {
                cur.push(c);
            }
            i = i + 1;
            assert(rest.subrange(0, i - first) =~= pre.push(c));
            assert(split_dots(rest.subrange(0, i - first)) =~= done.push(cur@));
        }
        assert(rest.subrange(0, i - first) =~= rest);
        let ghost parts = done.push(cur@);
        proof {
            assert(has_long_part(parts) == (has_long_part(done) || cur@.len() > 4)) by {
                if cur@.len() > 4 {
                    assert(parts[done.len() as int].len() > 4);
                }
                if has_long_part(parts) {
                    let j = choose|j: int| 0 <= j < parts.len() && #[trigger] parts[j].len() > 4;
                    if j < done.len() {
                        assert(done[j].len() > 4);
                    }
                }
                if has_long_part(done) {
                    let j = choose|j: int| 0 <= j < done.len() && #[trigger] done[j].len() > 4;
                    assert(parts[j].len() > 4);
                }
            }
            assert(parts.drop_last() =~= done);
        }
        if too_long || cur.len() > 4 {
            return None;
        }
        if cur.len() > 0 {
            segments.push(to_u8_4_array(&cur));
        }
        let flag = if is_absolute {
            NameStringFlag::AbsolutePath
        } else if count >= NORMAL_LIMIT {
            NameStringFlag::RelativePath
        } else if count == 1 {
            NameStringFlag::SingleRelativePath
        } else {
            NameStringFlag::RelativePath
        };
        Some(NameString { data: segments, flag })
    }
}

/// A part of at most four bytes as a segment.
pub fn to_u8_4_array(e: &Vec<u8>) -> (r: [u8; 4])
    requires
        e@.len() <= 4,
    ensures
        r == part_to_segment(e@),
{
    let mut result: [u8; 4] = [0, 0, 0, 0];
    let mut i: usize = 0;
    while i < e.len()
        invariant
            i <= e@.len() <= 4,
            forall|j: int| 0 <= j < i ==> result[j] == e@[j],
            forall|j: int| i <= j < 4 ==> result[j] == 0,
        decreases e@.len() - i,
    {
        result[i] = e[i];
        i = i + 1;
    }
    let ghost raw = result;
    delete_extra_under_score(&mut result);
    assert(raw =~= [
        if e@.len() > 0 { e@[0] } else { 0 },
        if e@.len() > 1 { e@[1] } else { 0 },
        if e@.len() > 2 { e@[2] } else { 0 },
        if e@.len() > 3 { e@[3] } else { 0 },
    ]);
    result
}

impl Clone for NameString {
    fn clone(&self) -> (r: Self)
        ensures
            r.same(self),
    {
        self.copy()
    }
}

impl PartialEq for NameString {
    fn eq(&self, other: &Self) -> (r: bool) {
        if self.flag == NameStringFlag::NullName && other.flag == NameStringFlag::NullName {
            return true;
        }
        if self.data.len() != other.data.len() {
            return false;
        }
        if self.data.len() == 0 {
            return true;
        }
        if self.flag == NameStringFlag::NullName || other.flag == NameStringFlag::NullName {
            return false;
        }
        let mut i: usize = 0;
        while i < self.data.len()
            invariant
                self.segs().len() == other.segs().len(),
                !self.is_null(),
                !other.is_null(),
                i <= self.segs().len(),
                forall|j: int| 0 <= j < i ==> self.segs()[j] == other.segs()[j],
            decreases self.segs().len() - i,
        {
            if !seg_eq(&self.data[i], &other.data[i]) {
                assert(self.segs()[i as int] != other.segs()[i as int]);
                return false;
            }
            i = i + 1;
        }
        assert(self.segs() =~= other.segs());
        true
    }
}

impl vstd::std_specs::cmp::PartialEqSpecImpl for NameString {
    open spec fn obeys_eq_spec() -> bool {
        true
    }

    open spec fn eq_spec(&self, other: &Self) -> bool {
        self.spec_eq(other)
    }
}

/// A byte below 0x80.
pub open spec fn is_ascii_byte(b: u8) -> bool {
    b < 0x80
}

/// The characters of an all-ASCII segment.
pub open spec fn ascii_chars(e: Seq<u8>) -> Seq<char> {
    e.map_values(|b: u8| b as char)
}

/// The text of the segments joined by `.`, each segment taken as ASCII.
pub open spec fn joined_text(segs: Seq<[u8; 4]>) -> Seq<char>
    decreases segs.len(),
{
    if segs.len() == 0 {
        Seq::empty()
    } else if segs.len() == 1 {
        ascii_chars(segs[0]@)
    } else {
        joined_text(segs.drop_last()) + seq!['.'] + ascii_chars(segs.last()@)
    }
}

/// Every byte of every segment is ASCII.
pub open spec fn all_ascii(segs: Seq<[u8; 4]>) -> bool {
    forall|i: int, j: int| 0 <= i < segs.len() && 0 <= j < 4 ==> is_ascii_byte(#[trigger] segs[i][j])
}

/// Bytes below 0x80 are UTF-8, and decode to the characters with their codes.
pub proof fn lemma_ascii_decode(b: Seq<u8>)
    requires
        forall|i: int| 0 <= i < b.len() ==> is_ascii_byte(#[trigger] b[i]),
    ensures
        vstd::utf8::valid_utf8(b),
        vstd::utf8::decode_utf8(b) == ascii_chars(b),
{
    let chars = ascii_chars(b);
    assert(vstd::utf8::is_ascii_chars(chars)) by {
        assert forall|i: int| 0 <= i < chars.len() implies '\0' <= #[trigger] chars[i] <= '\u{7f}' by {
            assert(is_ascii_byte(b[i]));
            assert(chars[i] == b[i] as char);
        }
    }
    vstd::utf8::is_ascii_chars_encode_utf8(chars);
    let enc = vstd::utf8::encode_utf8(chars);
    assert forall|i: int| 0 <= i < b.len() implies enc[i] == b[i] by {
        assert(chars[i] as u8 == enc[i]);
        assert(chars[i] == b[i] as char);
        assert(is_ascii_byte(b[i]));
        assert((b[i] as char) as u8 == b[i]);
    }
    assert(enc =~= b);
    vstd::utf8::encode_utf8_valid_utf8(chars);
    vstd::utf8::encode_utf8_decode_utf8(chars);
}

/// The text of a segment, when its bytes are UTF-8 (calls
/// `core::str::from_utf8`, which accepts exactly the UTF-8 byte sequences
/// and decodes them).
#[verifier::external_body]
fn segment_text(e: &[u8; 4]) -> (r: Option<&str>)
    ensures
        r is Some <==> vstd::utf8::valid_utf8(e@),
        r matches Some(t) ==> t@ == vstd::utf8::decode_utf8(e@),
{
    core::str::from_utf8(e).ok()
}

impl NameString {
    /// The path as text: `\\` first for an absolute path, then the segments
    /// joined by `.`; empty for a null name. A segment that is not UTF-8 is
    /// written as nothing.
    pub fn to_string(&self) -> (r: String)
        ensures
            self.is_null() ==> r@ == Seq::<char>::empty(),
            !self.is_null() && all_ascii(self.segs()) ==> r@ == (if self.spec_flag()
                == NameStringFlag::AbsolutePath {
                seq!['\\']
            } else {
                Seq::<char>::empty()
            }) + joined_text(self.segs()),
    {
        if self.flag == NameStringFlag::NullName {
            return String::new();
        }
        let ghost prefix: Seq<char> = if self.flag == NameStringFlag::AbsolutePath {
            seq!['\\']
        } else {
            Seq::<char>::empty()
        };
        let mut result = if self.flag == NameStringFlag::AbsolutePath {
            let r = String::from_str("\\");
            proof {
                reveal_strlit("\\");
            }
            assert(r@ =~= seq!['\\']);
            r
        } else {
            String::new()
        };
        assert(result@ =~= prefix + joined_text(self.segs().subrange(0, 0)));
        let mut i: usize = 0;
        while i < self.data.len()
            invariant
                i <= self.segs().len(),
                all_ascii(self.segs()) ==> result@ == prefix + joined_text(self.segs().subrange(0, i as int)),
            decreases self.segs().len() - i,
        {
            if i != 0 {
                let dot = ".";
                proof {
                    reveal_strlit(".");
                }
                result.append(dot);
            }
            let t = segment_text(&self.data[i]);
            match t {
                Some(text) => {
                    result.append(text);
                },
                None => {},
            }
            proof {
                if all_ascii(self.segs()) {
                    let e = self.segs()[i as int];
                    assert forall|j: int| 0 <= j < e@.len() implies is_ascii_byte(#[trigger] e@[j]) by {
                        assert(is_ascii_byte(self.segs()[i as int][j]));
                    }
                    lemma_ascii_decode(e@);
                    let sub = self.segs().subrange(0, i + 1);
                    assert(sub.drop_last() =~= self.segs().subrange(0, i as int));
                    assert(sub.last() == e);
                    if i == 0 {
                        assert(sub.len() == 1);
                    }
                }
            }
            i = i + 1;
            assert(all_ascii(self.segs()) ==> result@ =~= prefix + joined_text(self.segs().subrange(0, i as int)));
        }
        assert(self.segs().subrange(0, i as int) =~= self.segs());
        result
    }
}

impl NameString {
    /// A copy of the segments.
    pub fn elements(&self) -> (r: Vec<[u8; 4]>)
        ensures
            r@ == self.segs(),
    {
        copy_segments(&self.data)
    }

    /// Whether the segments that can be read out are `target`.
    pub fn elements_equal(&self, target: &Vec<[u8; 4]>) -> (r: bool)
        ensures
            r == (self.elems() == target@),
    {
        if self.flag == NameStringFlag::NullName {
            assert(target@.len() == 0 ==> target@ =~= Seq::<[u8; 4]>::empty());
            return target.len() == 0;
        }
        if self.data.len() != target.len() {
            return false;
        }
        let mut i: usize = 0;
        while i < self.data.len()
            invariant
                self.segs().len() == target@.len(),
                !self.is_null(),
                i <= self.segs().len(),
                forall|j: int| 0 <= j < i ==> self.segs()[j] == target@[j],
            decreases self.segs().len() - i,
        {
            if !seg_eq(&self.data[i], &target[i]) {
                assert(self.segs()[i as int] != target@[i as int]);
                return false;
            }
            i = i + 1;
        }
        assert(self.segs() =~= target@);
        true
    }
}

/// The `t`-th segment counted from the end.
pub open spec fn from_end(s: Seq<[u8; 4]>, t: int) -> [u8; 4] {
    s[s.len() - 1 - t]
}

/// The last segments of `a` and `b` agree as far as the shorter one reaches.
pub open spec fn suffix_match(a: Seq<[u8; 4]>, b: Seq<[u8; 4]>) -> bool {
    forall|t: int| 0 <= t < a.len() && 0 <= t < b.len() ==> #[trigger] from_end(a, t) == #[trigger] from_end(b, t)
}

/// Whether two segments hold the same bytes.
pub fn seg_eq(a: &[u8; 4], b: &[u8; 4]) -> (r: bool)
    ensures
        r == (*a == *b),
{
    let r = a[0] == b[0] && a[1] == b[1] && a[2] == b[2] && a[3] == b[3];
    if r {
        assert(*a =~= *b);
    }
    r
}

/// Copies a list of segments.
pub fn copy_segments(v: &Vec<[u8; 4]>) -> (r: Vec<[u8; 4]>)
    ensures
        r@ == v@,
{
    let mut r: Vec<[u8; 4]> = Vec::new();
    let mut i: usize = 0;
    while i < v.len()
        invariant
            i <= v@.len(),
            r@ == v@.subrange(0, i as int),
        decreases v@.len() - i,
    {
        r.push(v[i]);
        i = i + 1;
        assert(r@ =~= v@.subrange(0, i as int));
    }
    assert(r@ =~= v@);
    r
}

pub fn is_upper_byte(c: u8) -> (r: bool)
    ensures
        r == is_upper(c),
{
    0x41 <= c && c <= 0x5A
}

pub fn is_digit_byte(c: u8) -> (r: bool)
    ensures
        r == is_digit(c),
{
    0x30 <= c && c <= 0x39
}

/// Replaces the trailing `_` of bytes 1 to 3 with zeros.
pub fn delete_extra_under_score(e: &mut [u8; 4])
    ensures
        *final(e) == trim_underscores(*old(e)),
{
    let ghost e0 = *e;
    if e[3] == 0x5F {
        e[3] = 0;
        if e[2] == 0x5F {
            e[2] = 0;
            if e[1] == 0x5F {
                e[1] = 0;
            }
        }
    }
    assert(e@ =~= trim_underscores(e0)@);
}

/// A path below `scope`, taken relative to it (as `get_relative_name`
/// gives it) and put back under it (as `get_full_name_path` does), has the
/// segments of the path itself, where the relative part has at most
/// `NORMAL_LIMIT` segments.
pub proof fn lemma_relative_then_full(scope: NameString, child: NameString)
    requires
        scope.spec_is_child(&child),
        !scope.is_null(),
        !child.is_null(),
        child.elems().len() - scope.elems().len() <= NORMAL_LIMIT,
    ensures
        scope.segs() + child.elems().subrange(scope.elems().len() as int, child.elems().len() as int)
            == child.segs(),
{
    let k = scope.elems().len() as int;
    let rel = child.elems().subrange(k, child.elems().len() as int);
    assert(child.elems().subrange(0, k) + rel =~= child.elems());
}

/// No path lies strictly below itself.
pub proof fn lemma_is_child_irreflexive(n: NameString)
    ensures
        !n.spec_is_child(&n),
{
}

/// Lying strictly below is transitive.
pub proof fn lemma_is_child_transitive(a: NameString, b: NameString, c: NameString)
    requires
        a.spec_is_child(&b),
        b.spec_is_child(&c),
    ensures
        a.spec_is_child(&c),
{
    let ka = a.elems().len() as int;
    let kb = b.elems().len() as int;
    assert(c.elems().subrange(0, ka) =~= c.elems().subrange(0, kb).subrange(0, ka));
    assert(b.elems().subrange(0, ka) =~= a.elems());
}

} // verus!
