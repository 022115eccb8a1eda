//! Key expressions: slash-separated segments where `*` matches exactly one
//! segment and `**` matches any run of segments.
//!
//! A key expression is canonical when it has at least one segment, no
//! segment is empty, no segment contains a slash, and a segment containing
//! `*` is exactly `*` or `**`. Construction validates; comparison and
//! intersection of constructed key expressions never allocate.

use vstd::prelude::*;

verus! {

/// Byte value of the segment separator `/`.
pub const SLASH: u8 = 47;

/// Byte value of the wildcard `*`.
pub const STAR: u8 = 42;

/// A segment that is the single-segment wildcard `*`.
pub open spec fn is_star(s: Seq<u8>) -> bool {
    s.len() == 1 && s[0] == STAR
}

/// A segment that is the multi-segment wildcard `**`.
pub open spec fn is_dstar(s: Seq<u8>) -> bool {
    s.len() == 2 && s[0] == STAR && s[1] == STAR
}

/// A canonical segment: non-empty, no separator, and `*` only as one of
/// the two wildcard forms.
pub open spec fn valid_seg(s: Seq<u8>) -> bool {
    &&& s.len() > 0
    &&& !s.contains(SLASH)
    &&& s.contains(STAR) ==> is_star(s) || is_dstar(s)
}

/// A canonical key expression, as a sequence of segments.
pub open spec fn valid_key(k: Seq<Seq<u8>>) -> bool {
    &&& k.len() > 0
    &&& forall|i: int| 0 <= i < k.len() ==> valid_seg(#[trigger] k[i])
}

/// A key expression that contains a wildcard segment.
pub open spec fn has_wild(k: Seq<Seq<u8>>) -> bool {
    exists|i: int| 0 <= i < k.len() && (#[trigger] k[i]).contains(STAR)
}

/// A concrete key: canonical and free of wildcards.
pub open spec fn concrete_key(k: Seq<Seq<u8>>) -> bool {
    valid_key(k) && !has_wild(k)
}

/// Splitting a byte string on `/`, carrying the segment read so far.
pub open spec fn split_acc(s: Seq<u8>, cur: Seq<u8>) -> Seq<Seq<u8>>
    decreases s.len(),
{
    if s.len() == 0 {
        seq![cur]
    } else if s[0] == SLASH {
        seq![cur] + split_acc(s.skip(1), Seq::empty())
    } else {
        split_acc(s.skip(1), cur.push(s[0]))
    }
}

/// The segments of a byte string, split on `/`. An empty string, a leading
/// or trailing `/`, or two adjacent `/` produce an empty segment, which no
/// canonical key expression has.
pub open spec fn split_slash(s: Seq<u8>) -> Seq<Seq<u8>> {
    split_acc(s, Seq::empty())
}

/// The view of a vector of segments.
pub open spec fn segs_view(v: Seq<Vec<u8>>) -> Seq<Seq<u8>> {
    v.map_values(|s: Vec<u8>| s@)
}

/// Whether two key expressions intersect: some concrete key matches both.
/// Defined by simultaneous segment-wise matching, `**` absorbing any run
/// of segments on the opposite side.
pub open spec fn inter(a: Seq<Seq<u8>>, b: Seq<Seq<u8>>) -> bool
    decreases a.len() + b.len(),
{
    if a.len() == 0 && b.len() == 0 {
        true
    } else if a.len() == 0 {
        is_dstar(b[0]) && inter(a, b.skip(1))
    } else if b.len() == 0 {
        is_dstar(a[0]) && inter(a.skip(1), b)
    } else if is_dstar(a[0]) || is_dstar(b[0]) {
        inter(a.skip(1), b) || inter(a, b.skip(1))
    } else {
        seg_match(a[0], b[0]) && inter(a.skip(1), b.skip(1))
    }
}

/// Whether two non-`**` segments can be matched by one concrete segment.
pub open spec fn seg_match(x: Seq<u8>, y: Seq<u8>) -> bool {
    is_star(x) || is_star(y) || x == y
}

/// Whether every concrete key matching `b` also matches `a`.
pub open spec fn incl(a: Seq<Seq<u8>>, b: Seq<Seq<u8>>) -> bool
    decreases a.len() + b.len(),
{
    if a.len() == 0 {
        b.len() == 0
    } else if is_dstar(a[0]) {
        incl(a.skip(1), b) || (b.len() > 0 && incl(a, b.skip(1)))
    } else if b.len() == 0 {
        false
    } else if is_dstar(b[0]) {
        false
    } else {
        seg_incl(a[0], b[0]) && incl(a.skip(1), b.skip(1))
    }
}

/// Whether segment `x` matches at least everything segment `y` matches,
/// for non-`**` segments.
pub open spec fn seg_incl(x: Seq<u8>, y: Seq<u8>) -> bool {
    is_star(x) || x == y
}

/// The error returned when a byte string is not a canonical key expression.
#[derive(Clone, Copy, Debug, PartialEq, Eq, Structural)]
pub struct InvalidKeyExpr;

/// An immutable, canonical key expression, held as its segments.
pub struct KeyExpr {
    segs: Vec<Vec<u8>>,
}

impl View for KeyExpr {
    type V = Seq<Seq<u8>>;

    closed spec fn view(&self) -> Seq<Seq<u8>> {
        segs_view(self.segs@)
    }
}

fn contains_byte(s: &Vec<u8>, b: u8) -> (r: bool)
    ensures
        r == s@.contains(b),
{
    let mut i: usize = 0;
    while i < s.len()
        invariant
            0 <= i <= s@.len(),
            forall|j: int| 0 <= j < i ==> s@[j] != b,
        decreases s@.len() - i,
    {
        if s[i] == b {
            assert(s@.contains(b));
            return true;
        }
        i += 1;
    }
    assert(!s@.contains(b));
    return false;
}

fn seg_is_valid(s: &Vec<u8>) -> (r: bool)
    ensures
        r == valid_seg(s@),
{
    if s.len() == 0 {
        return false;
    }
    if contains_byte(s, SLASH) {
        return false;
    }
    if contains_byte(s, STAR) {
        if s.len() == 1 && s[0] == STAR {
            return true;
        }
        if s.len() == 2 && s[0] == STAR && s[1] == STAR {
            return true;
        }
        return false;
    }
    return true;
}

pub(crate) fn clone_bytes(v: &Vec<u8>) -> (r: Vec<u8>)
    ensures
        r@ == v@,
{
    let mut r: Vec<u8> = Vec::new();
    let mut i: usize = 0;
    while i < v.len()
        invariant
            0 <= i <= v@.len(),
            r@ == v@.take(i as int),
        decreases v@.len() - i,
    {
        r.push(v[i]);
        assert(r@ =~= v@.take(i + 1 as int));
        i += 1;
    }
    assert(r@ =~= v@);
    return r;
}

fn clone_segs(v: &Vec<Vec<u8>>) -> (r: Vec<Vec<u8>>)
    ensures
        segs_view(r@) == segs_view(v@),
{
    let mut r: Vec<Vec<u8>> = Vec::new();
    let mut i: usize = 0;
    while i < v.len()
        invariant
            0 <= i <= v@.len(),
            r@.len() == i,
            forall|j: int| 0 <= j < i ==> #[trigger] r@[j]@ == v@[j]@,
        decreases v@.len() - i,
    {
        r.push(clone_bytes(&v[i]));
        i += 1;
    }
    assert(segs_view(r@) =~= segs_view(v@));
    return r;
}

fn bytes_eq(a: &Vec<u8>, b: &Vec<u8>) -> (r: bool)
    ensures
        r == (a@ == b@),
{
    if a.len() != b.len() {
        return false;
    }
    let mut i: usize = 0;
    while i < a.len()
        invariant
            0 <= i <= a@.len(),
            a@.len() == b@.len(),
            forall|j: int| 0 <= j < i ==> a@[j] == b@[j],
        decreases a@.len() - i,
    {
        if a[i] != b[i] {
            return false;
        }
        i += 1;
    }
    assert(a@ =~= b@);
    return true;
}

impl Clone for KeyExpr {
    /// Cloning keeps the segments.
    fn clone(&self) -> (r: Self)
        ensures
            r@ == self@,
    {
        KeyExpr { segs: clone_segs(&self.segs) }
    }
}

impl KeyExpr {
    /// Canonicality of this key expression. Every constructor establishes
    /// it; no operation ever breaks it.
    pub open spec fn wf(&self) -> bool {
        valid_key(self@)
    }

    /// Parse a byte string into a key expression: split on `/` and demand
    /// that every segment is canonical. Returns the error exactly when the
    /// split is not a canonical key expression.
    pub fn new(text: &Vec<u8>) -> (r: Result<KeyExpr, InvalidKeyExpr>)
        ensures
            r is Ok <==> valid_key(split_slash(text@)),
            r matches Ok(k) ==> k@ == split_slash(text@) && k.wf(),
    {
        let segs = split_bytes(text);
        let n = segs.len();
        let mut i: usize = 0;
        while i < n
            invariant
                0 <= i <= segs@.len(),
                n == segs@.len(),
                segs@.len() > 0,
                segs_view(segs@) == split_slash(text@),
                forall|j: int| 0 <= j < i ==> valid_seg(#[trigger] segs_view(segs@)[j]),
        decreases segs@.len() - i,
        {
            if !seg_is_valid(&segs[i]) {
                assert(segs_view(segs@)[i as int] == segs@[i as int]@);
                assert(!valid_seg(segs_view(segs@)[i as int]));
                assert(!valid_key(split_slash(text@)));
                return Err(InvalidKeyExpr);
            }
            i += 1;
        }
        if segs.len() == 0 {
            return Err(InvalidKeyExpr);
        }
        let k = KeyExpr { segs };
        assert(valid_key(k@));
        return Ok(k);
    }

    /// The number of segments.
    pub fn len(&self) -> (n: usize)
        ensures
            n == self@.len(),
    {
        self.segs.len()
    }

    /// Join: the segments of `self` followed by the segments of `tail`,
    /// i.e. the text of `self`, a `/`, and the text of `tail`. Joining two
    /// canonical key expressions is always canonical.
    pub fn join(&self, tail: &KeyExpr) -> (r: KeyExpr)
        requires
            self.wf(),
            tail.wf(),
        ensures
            r@ == self@ + tail@,
            r.wf(),
    {
        let mut segs = clone_segs(&self.segs);
        let more = clone_segs(&tail.segs);
        let ghost pre = segs@;
        let mut j: usize = 0;
        while j < more.len()
            invariant
                0 <= j <= more@.len(),
                segs_view(segs@) == segs_view(pre) + segs_view(more@).take(j as int),
            decreases more@.len() - j,
        {
            let ghost segs_before = segs@;
            let piece = clone_bytes(&more[j]);
            segs.push(piece);
            assert(segs_view(segs@) =~= segs_view(segs_before).push(more@[j as int]@));
            assert(segs_view(more@).take(j + 1 as int) =~= segs_view(more@).take(j as int).push(
                more@[j as int]@,
            ));
            assert(segs_view(segs@) =~= segs_view(pre) + segs_view(more@).take(j + 1 as int));
            j += 1;
        }
        assert(segs_view(segs@) =~= segs_view(pre) + segs_view(more@));
        let r = KeyExpr { segs };
        assert(r@ =~= self@ + tail@);
        assert(valid_key(r@));
        return r;
    }

    /// Whether any segment is a wildcard; on a canonical key expression
    /// this is exactly whether its text contains `*`.
    pub fn has_wildcard(&self) -> (r: bool)
        requires
            self.wf(),
        ensures
            r == has_wild(self@),
    {
        let mut i: usize = 0;
        let n = self.segs.len();
        while i < n
            invariant
                0 <= i <= self@.len(),
                n == self@.len(),
                forall|j: int| 0 <= j < i ==> !(#[trigger] self@[j]).contains(STAR),
            decreases n - i,
        {
            if contains_byte(&self.segs[i], STAR) {
                assert(self@[i as int].contains(STAR));
                return true;
            }
            assert(!self@[i as int].contains(STAR));
            i += 1;
        }
        assert(!has_wild(self@));
        return false;
    }

    /// Segment-wise equality of two key expressions.
    pub fn key_eq(&self, other: &KeyExpr) -> (r: bool)
        ensures
            r == (self@ == other@),
    {
        if self.segs.len() != other.segs.len() {
            assert(self@.len() != other@.len());
            return false;
        }
        let n = self.segs.len();
        let mut i: usize = 0;
        while i < n
            invariant
                0 <= i <= self@.len(),
                n == self@.len(),
                self@.len() == other@.len(),
                forall|j: int| 0 <= j < i ==> #[trigger] self@[j] == other@[j],
            decreases n - i,
        {
            if !bytes_eq(&self.segs[i], &other.segs[i]) {
                assert(self@[i as int] != other@[i as int]);
                return false;
            }
            assert(self@[i as int] == other@[i as int]);
            i += 1;
        }
        assert(self@ =~= other@);
        return true;
    }
}

fn seg_is_star(s: &Vec<u8>) -> (r: bool)
    ensures
        r == is_star(s@),
{
    s.len() == 1 && s[0] == STAR
}

fn seg_is_dstar(s: &Vec<u8>) -> (r: bool)
    ensures
        r == is_dstar(s@),
{
    s.len() == 2 && s[0] == STAR && s[1] == STAR
}

fn seg_match_exec(x: &Vec<u8>, y: &Vec<u8>) -> (r: bool)
    ensures
        r == seg_match(x@, y@),
{
    if seg_is_star(x) {
        return true;
    }
    if seg_is_star(y) {
        return true;
    }
    return bytes_eq(x, y);
}

fn inter_from(a: &Vec<Vec<u8>>, b: &Vec<Vec<u8>>, i: usize, j: usize) -> (r: bool)
    requires
        i <= a@.len(),
        j <= b@.len(),
    ensures
        r == inter(segs_view(a@).skip(i as int), segs_view(b@).skip(j as int)),
    decreases a@.len() - i + b@.len() - j,
{
    let ghost sa = segs_view(a@).skip(i as int);
    let ghost sb = segs_view(b@).skip(j as int);
    if i < a.len() {
        assert(sa[0] == a@[i as int]@);
        assert(sa.skip(1) =~= segs_view(a@).skip(i + 1 as int));
    }
    if j < b.len() {
        assert(sb[0] == b@[j as int]@);
        assert(sb.skip(1) =~= segs_view(b@).skip(j + 1 as int));
    }
    if i == a.len() && j == b.len() {
        return true;
    }
    if i == a.len() {
        return seg_is_dstar(&b[j]) && inter_from(a, b, i, j + 1);
    }
    if j == b.len() {
        return seg_is_dstar(&a[i]) && inter_from(a, b, i + 1, j);
    }
    if seg_is_dstar(&a[i]) || seg_is_dstar(&b[j]) {
        return inter_from(a, b, i + 1, j) || inter_from(a, b, i, j + 1);
    }
    return seg_match_exec(&a[i], &b[j]) && inter_from(a, b, i + 1, j + 1);
}

fn incl_from(a: &Vec<Vec<u8>>, b: &Vec<Vec<u8>>, i: usize, j: usize) -> (r: bool)
    requires
        i <= a@.len(),
        j <= b@.len(),
    ensures
        r == incl(segs_view(a@).skip(i as int), segs_view(b@).skip(j as int)),
    decreases a@.len() - i + b@.len() - j,
{
    let ghost sa = segs_view(a@).skip(i as int);
    let ghost sb = segs_view(b@).skip(j as int);
    if i < a.len() {
        assert(sa[0] == a@[i as int]@);
        assert(sa.skip(1) =~= segs_view(a@).skip(i + 1 as int));
    }
    if j < b.len() {
        assert(sb[0] == b@[j as int]@);
        assert(sb.skip(1) =~= segs_view(b@).skip(j + 1 as int));
    }
    if i == a.len() {
        return j == b.len();
    }
    if seg_is_dstar(&a[i]) {
        if incl_from(a, b, i + 1, j) {
            return true;
        }
        return j < b.len() && incl_from(a, b, i, j + 1);
    }
    if j == b.len() {
        return false;
    }
    if seg_is_dstar(&b[j]) {
        return false;
    }
    let head_ok = seg_is_star(&a[i]) || bytes_eq(&a[i], &b[j]);
    return head_ok && incl_from(a, b, i + 1, j + 1);
}

impl KeyExpr {
    /// Whether some concrete key matches both key expressions.
    pub fn intersects(&self, other: &KeyExpr) -> (r: bool)
        ensures
            r == inter(self@, other@),
    {
        assert(segs_view(self.segs@).skip(0) =~= self@);
        assert(segs_view(other.segs@).skip(0) =~= other@);
        inter_from(&self.segs, &other.segs, 0, 0)
    }

    /// Whether every concrete key matching `other` also matches `self`.
    pub fn includes(&self, other: &KeyExpr) -> (r: bool)
        ensures
            r == incl(self@, other@),
    {
        assert(segs_view(self.segs@).skip(0) =~= self@);
        assert(segs_view(other.segs@).skip(0) =~= other@);
        incl_from(&self.segs, &other.segs, 0, 0)
    }
}

/// Prepending `**` to one side of an intersection keeps it: the run it
/// matches can be empty.
proof fn lemma_inter_dstar_prepend(a: Seq<Seq<u8>>, b: Seq<Seq<u8>>, h: Seq<u8>)
    requires
        is_dstar(h),
        inter(a, b),
    ensures
        inter(a, seq![h] + b),
{
    let b2 = seq![h] + b;
    assert(b2.skip(1) =~= b);
    assert(b2[0] == h);
    if a.len() == 0 {
        assert(inter(a, b2));
    } else if is_dstar(a[0]) {
        assert(inter(a, b2));
    } else {
        assert(inter(a, b2));
    }
}

/// Intersection is reflexive: every key expression intersects itself.
pub proof fn lemma_inter_reflexive(a: Seq<Seq<u8>>)
    ensures
        inter(a, a),
    decreases a.len(),
{
    if a.len() == 0 {
    } else {
        lemma_inter_reflexive(a.skip(1));
        if is_dstar(a[0]) {
            lemma_inter_dstar_prepend(a.skip(1), a.skip(1), a[0]);
            assert(seq![a[0]] + a.skip(1) =~= a);
            assert(inter(a.skip(1), a));
        } else {
            assert(seg_match(a[0], a[0]));
        }
    }
}

/// Intersection is commutative.
pub proof fn lemma_inter_commutative(a: Seq<Seq<u8>>, b: Seq<Seq<u8>>)
    ensures
        inter(a, b) == inter(b, a),
    decreases a.len() + b.len(),
{
    if a.len() == 0 && b.len() == 0 {
    } else if a.len() == 0 {
        lemma_inter_commutative(a, b.skip(1));
    } else if b.len() == 0 {
        lemma_inter_commutative(a.skip(1), b);
    } else {
        lemma_inter_commutative(a.skip(1), b);
        lemma_inter_commutative(a, b.skip(1));
        lemma_inter_commutative(a.skip(1), b.skip(1));
    }
}

/// Inclusion implies intersection: if every key matching `b` matches `a`,
/// then some concrete key matches both.
pub proof fn lemma_incl_implies_inter(a: Seq<Seq<u8>>, b: Seq<Seq<u8>>)
    requires
        incl(a, b),
    ensures
        inter(a, b),
    decreases a.len() + b.len(),
{
    if a.len() == 0 {
    } else if is_dstar(a[0]) {
        if incl(a.skip(1), b) {
            lemma_incl_implies_inter(a.skip(1), b);
        } else {
            lemma_incl_implies_inter(a, b.skip(1));
        }
    } else {
        lemma_incl_implies_inter(a.skip(1), b.skip(1));
    }
}

/// Joining two concrete keys yields a concrete key.
pub proof fn lemma_join_concrete(a: Seq<Seq<u8>>, b: Seq<Seq<u8>>)
    requires
        concrete_key(a),
        concrete_key(b),
    ensures
        concrete_key(a + b),
{
    let c = a + b;
    assert forall|i: int| 0 <= i < c.len() implies valid_seg(#[trigger] c[i]) by {
        if i < a.len() {
            assert(c[i] == a[i]);
        } else {
            assert(c[i] == b[i - a.len()]);
        }
    }
    assert forall|i: int| 0 <= i < c.len() implies !(#[trigger] c[i]).contains(STAR) by {
        if i < a.len() {
            assert(c[i] == a[i]);
            assert(!a[i].contains(STAR));
        } else {
            assert(c[i] == b[i - a.len()]);
            assert(!b[i - a.len()].contains(STAR));
        }
    }
    assert(!has_wild(c));
}

fn split_bytes(text: &Vec<u8>) -> (segs: Vec<Vec<u8>>)
    ensures
        segs_view(segs@) == split_slash(text@),
        segs@.len() > 0,
{
    let mut segs: Vec<Vec<u8>> = Vec::new();
    let mut cur: Vec<u8> = Vec::new();
    let n = text.len();
    let mut i: usize = 0;
    assert(text@.skip(0) =~= text@);
    while i < n
        invariant
            0 <= i <= text@.len(),
            n == text@.len(),
            split_slash(text@) == segs_view(segs@) + split_acc(text@.skip(i as int), cur@),
        decreases n - i,
    {
        let ghost rest = text@.skip(i as int);
        assert(rest[0] == text@[i as int]);
        assert(rest.skip(1) =~= text@.skip(i + 1 as int));
        if text[i] == SLASH {
            let ghost segs_pre = segs@;
            let done = cur;
            cur = Vec::new();
            segs.push(done);
            assert(segs_view(segs@) =~= segs_view(segs_pre) + seq![done@]);
            assert(segs_view(segs@) + split_acc(text@.skip(i + 1 as int), cur@) =~= segs_view(
                segs_pre,
            ) + split_acc(rest, done@));
        } else {
            cur.push(text[i]);
        }
        i += 1;
    }
    assert(text@.skip(n as int) =~= Seq::<u8>::empty());
    let ghost segs_pre = segs@;
    let ghost cur_snap = cur@;
    segs.push(cur);
    assert(segs_view(segs@) =~= segs_view(segs_pre) + seq![cur_snap]);
    assert(split_acc(Seq::<u8>::empty(), cur_snap) =~= seq![cur_snap]);
    assert(segs_view(segs@) =~= split_slash(text@));
    return segs;
}

} // verus!
