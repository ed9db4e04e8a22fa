//! Predictions made by laying a completion over the text that stands in the buffer.
use unicode_segmentation::UnicodeSegmentation;
use vstd::prelude::*;
use vstd::string::*;
use vstd::utf8::*;

verus! {

/// Text to be inserted at a byte offset of the buffer.
#[derive(Debug)]
pub struct Insertion {
    pub offset: usize,
    pub text: String,
}

/// What an insertion puts where.
#[verifier::ext_equal]
pub struct InsertionView {
    pub offset: int,
    pub text: Seq<char>,
}

impl View for Insertion {
    type V = InsertionView;

    open spec fn view(&self) -> InsertionView {
        InsertionView { offset: self.offset as int, text: self.text@ }
    }
}

/// What some insertions put where.
pub open spec fn insertions_view(edits: Seq<Insertion>) -> Seq<InsertionView> {
    edits.map_values(|e: Insertion| e@)
}

/// The characters of some strings.
pub open spec fn texts(strings: Seq<String>) -> Seq<Seq<char>> {
    strings.map_values(|s: String| s@)
}

/// Some texts, one after another.
pub open spec fn joined(parts: Seq<Seq<char>>) -> Seq<char>
    decreases parts.len(),
{
    if parts.len() == 0 {
        Seq::empty()
    } else {
        joined(parts.drop_last()) + parts.last()
    }
}

/// Whether none of some texts is empty.
pub open spec fn none_empty(parts: Seq<Seq<char>>) -> bool {
    forall|i: int| 0 <= i < parts.len() ==> (#[trigger] parts[i]).len() > 0
}

/// The extended grapheme clusters of a text, as UAX #29 draws their boundaries.
pub uninterp spec fn grapheme_clusters(text: Seq<char>) -> Seq<Seq<char>>;

/// Collects `unicode_segmentation`'s `graphemes` over `text`, extended clusters.
/// Taken on trust: the clusters depend on the text alone, none of them is empty, and
/// one after another they are the text.
#[verifier::external_body]
fn graphemes(text: &str) -> (clusters: Vec<String>)
    ensures
        texts(clusters@) == grapheme_clusters(text@),
        joined(texts(clusters@)) == text@,
        none_empty(texts(clusters@)),
{
    text.graphemes(true).map(String::from).collect()
}

/// Where `cluster` first stands among `parts` from `i` on; their number where it does
/// not.
pub open spec fn position_from(parts: Seq<Seq<char>>, i: int, cluster: Seq<char>) -> int
    decreases parts.len() - i,
{
    if i >= parts.len() {
        parts.len() as int
    } else if parts[i] == cluster {
        i
    } else {
        position_from(parts, i + 1, cluster)
    }
}

/// The insertions that lay the completion from cluster `i` on over the buffer from
/// cluster `j` on, which stands at byte `offset`. Each cluster of the buffer is met
/// by the next cluster of the completion equal to it, and what the completion has
/// before that one is inserted. What it has after the last is inserted at the end.
/// Where a cluster of the buffer is not met, nothing more is inserted.
pub open spec fn insertions_from(
    completion: Seq<Seq<char>>,
    buffer: Seq<Seq<char>>,
    i: int,
    j: int,
    offset: int,
) -> Seq<InsertionView>
    decreases buffer.len() - j,
{
    if j >= buffer.len() {
        if i < completion.len() {
            seq![InsertionView { offset, text: joined(completion.skip(i)) }]
        } else {
            Seq::empty()
        }
    } else {
        let k = position_from(completion, i, buffer[j]);
        if k >= completion.len() {
            Seq::empty()
        } else {
            let later = insertions_from(
                completion,
                buffer,
                k + 1,
                j + 1,
                offset + encode_utf8(buffer[j]).len(),
            );
            if k == i {
                later
            } else {
                seq![InsertionView { offset, text: joined(completion.subrange(i, k)) }] + later
            }
        }
    }
}

/// The insertions that lay a completion over the text of a buffer that starts at byte
/// `position`.
pub open spec fn prediction(
    buffer_text: Seq<char>,
    completion_text: Seq<char>,
    position: int,
) -> Seq<InsertionView> {
    insertions_from(
        grapheme_clusters(completion_text),
        grapheme_clusters(buffer_text),
        0,
        0,
        position,
    )
}

proof fn lemma_position_from(parts: Seq<Seq<char>>, i: int, cluster: Seq<char>)
    requires
        0 <= i <= parts.len(),
    ensures
        i <= position_from(parts, i, cluster) <= parts.len(),
        position_from(parts, i, cluster) < parts.len() ==> parts[position_from(parts, i, cluster)]
            == cluster,
        forall|m: int| i <= m < position_from(parts, i, cluster) ==> #[trigger] parts[m] != cluster,
    decreases parts.len() - i,
{
    if i < parts.len() && parts[i] != cluster {
        lemma_position_from(parts, i + 1, cluster);
    }
}

proof fn lemma_joined_concat(a: Seq<Seq<char>>, b: Seq<Seq<char>>)
    ensures
        joined(a + b) == joined(a) + joined(b),
    decreases b.len(),
{
    if b.len() == 0 {
        assert(a + b =~= a);
        assert(joined(a) + joined(b) =~= joined(a));
    } else {
        lemma_joined_concat(a, b.drop_last());
        assert((a + b).drop_last() =~= a + b.drop_last());
        assert(joined(a + b) =~= joined(a) + joined(b));
    }
}

proof fn lemma_joined_first(parts: Seq<Seq<char>>)
    requires
        parts.len() > 0,
    ensures
        joined(parts) == parts[0] + joined(parts.skip(1)),
{
    let first = seq![parts[0]];
    lemma_joined_concat(first, parts.skip(1));
    assert(first + parts.skip(1) =~= parts);
    assert(first.drop_last() =~= Seq::empty());
    assert(joined(first) =~= joined(first.drop_last()) + parts[0]);
    assert(joined(first) =~= parts[0]);
}

proof fn lemma_encode_concat(a: Seq<char>, b: Seq<char>)
    ensures
        encode_utf8(a + b) == encode_utf8(a) + encode_utf8(b),
    decreases a.len(),
{
    if a.len() == 0 {
        assert(a + b =~= b);
        assert(encode_utf8(a) + encode_utf8(b) =~= encode_utf8(b));
    } else {
        lemma_encode_concat(a.drop_first(), b);
        assert((a + b).drop_first() =~= a.drop_first() + b);
        assert(encode_utf8(a + b) =~= encode_utf8(a) + encode_utf8(b));
    }
}

/// The bytes of a text that starts at byte `start`, after some insertions whose offsets
/// do not fall.
pub open spec fn applied(bytes: Seq<u8>, start: int, edits: Seq<InsertionView>) -> Seq<u8>
    decreases edits.len(),
{
    if edits.len() == 0 {
        bytes
    } else {
        let n = edits[0].offset - start;
        bytes.take(n) + encode_utf8(edits[0].text) + applied(
            bytes.skip(n),
            edits[0].offset,
            edits.skip(1),
        )
    }
}

/// What a completion laid over a buffer reads: the completion, where each cluster of
/// the buffer is met; else the completion up to the last cluster that is, and from
/// there on the buffer.
pub open spec fn laid_over(
    completion: Seq<Seq<char>>,
    buffer: Seq<Seq<char>>,
    i: int,
    j: int,
) -> Seq<char>
    decreases buffer.len() - j,
{
    if j >= buffer.len() {
        joined(completion.skip(i))
    } else {
        let k = position_from(completion, i, buffer[j]);
        if k >= completion.len() {
            joined(buffer.skip(j))
        } else {
            joined(completion.subrange(i, k + 1)) + laid_over(completion, buffer, k + 1, j + 1)
        }
    }
}

/// Whether `places` name clusters of `whole`, in order, that are the clusters of `part`.
pub open spec fn stands_at(part: Seq<Seq<char>>, whole: Seq<Seq<char>>, places: Seq<int>) -> bool {
    &&& places.len() == part.len()
    &&& forall|j: int| #![trigger places[j]]
        0 <= j < places.len() ==> 0 <= places[j] < whole.len() && whole[places[j]] == part[j]
    &&& forall|j: int, l: int| 0 <= j < l < places.len() ==> places[j] < places[l]
}

/// Whether the clusters of `part` stand in `whole`, in order, gaps allowed.
pub open spec fn is_subsequence(part: Seq<Seq<char>>, whole: Seq<Seq<char>>) -> bool {
    exists|places: Seq<int>| stands_at(part, whole, places)
}

/// The cluster of the buffer, from `j` on, that the completion from `i` on is the first
/// not to meet; their number where it meets all of them.
pub open spec fn first_unmet(
    completion: Seq<Seq<char>>,
    buffer: Seq<Seq<char>>,
    i: int,
    j: int,
) -> int
    decreases buffer.len() - j,
{
    if j >= buffer.len() {
        buffer.len() as int
    } else {
        let k = position_from(completion, i, buffer[j]);
        if k >= completion.len() {
            j
        } else {
            first_unmet(completion, buffer, k + 1, j + 1)
        }
    }
}

/// How far into the completion, from cluster `i` on, what is laid over the buffer from
/// cluster `j` on is read: just behind the cluster that meets the last one that is met,
/// or to the end where every cluster is met.
pub open spec fn front_end(
    completion: Seq<Seq<char>>,
    buffer: Seq<Seq<char>>,
    i: int,
    j: int,
) -> int
    decreases buffer.len() - j,
{
    if j >= buffer.len() {
        completion.len() as int
    } else {
        let k = position_from(completion, i, buffer[j]);
        if k >= completion.len() {
            i
        } else {
            front_end(completion, buffer, k + 1, j + 1)
        }
    }
}

/// Insertions stay between the start of the text and its end.
proof fn lemma_first_offset(
    completion: Seq<Seq<char>>,
    buffer: Seq<Seq<char>>,
    i: int,
    j: int,
    offset: int,
)
    requires
        0 <= i <= completion.len(),
        0 <= j <= buffer.len(),
    ensures
        ({
            let edits = insertions_from(completion, buffer, i, j, offset);
            edits.len() > 0 ==> offset <= edits[0].offset <= offset + encode_utf8(
                joined(buffer.skip(j)),
            ).len()
        }),
    decreases buffer.len() - j,
{
    if j < buffer.len() {
        lemma_position_from(completion, i, buffer[j]);
        let k = position_from(completion, i, buffer[j]);
        if k < completion.len() {
            lemma_cluster_bytes(buffer, j);
            lemma_first_offset(
                completion,
                buffer,
                k + 1,
                j + 1,
                offset + encode_utf8(buffer[j]).len(),
            );
        }
    }
}

/// The bytes of a buffer from cluster `j` on are those of the cluster and the rest.
proof fn lemma_cluster_bytes(buffer: Seq<Seq<char>>, j: int)
    requires
        0 <= j < buffer.len(),
    ensures
        joined(buffer.skip(j)) == buffer[j] + joined(buffer.skip(j + 1)),
        encode_utf8(joined(buffer.skip(j))) == encode_utf8(buffer[j]) + encode_utf8(
            joined(buffer.skip(j + 1)),
        ),
{
    lemma_joined_first(buffer.skip(j));
    assert(buffer.skip(j).skip(1) =~= buffer.skip(j + 1));
    lemma_encode_concat(buffer[j], joined(buffer.skip(j + 1)));
}

/// Text that stands before every insertion stays where it is.
proof fn lemma_applied_after(x: Seq<u8>, y: Seq<u8>, start: int, edits: Seq<InsertionView>)
    requires
        edits.len() > 0 ==> start + x.len() <= edits[0].offset <= start + x.len() + y.len(),
    ensures
        applied(x + y, start, edits) == x + applied(y, start + x.len(), edits),
{
    if edits.len() > 0 {
        let n = edits[0].offset - start;
        let m = n - x.len();
        assert((x + y).take(n) =~= x + y.take(m));
        assert((x + y).skip(n) =~= y.skip(m));
        assert(applied(x + y, start, edits) =~= x + applied(y, start + x.len(), edits));
    }
}

/// The insertions turn the buffer into what the completion laid over it reads.
pub proof fn law_insertions_apply(
    completion: Seq<Seq<char>>,
    buffer: Seq<Seq<char>>,
    i: int,
    j: int,
    offset: int,
)
    requires
        0 <= i <= completion.len(),
        0 <= j <= buffer.len(),
    ensures
        applied(
            encode_utf8(joined(buffer.skip(j))),
            offset,
            insertions_from(completion, buffer, i, j, offset),
        ) == encode_utf8(laid_over(completion, buffer, i, j)),
    decreases buffer.len() - j,
{
    let edits = insertions_from(completion, buffer, i, j, offset);
    let bytes = encode_utf8(joined(buffer.skip(j)));
    if j == buffer.len() {
        assert(buffer.skip(j) =~= Seq::empty());
        assert(bytes =~= Seq::empty());
        if i < completion.len() {
            assert(edits.skip(1) =~= Seq::empty());
            assert(bytes.take(0) =~= Seq::empty() && bytes.skip(0) =~= Seq::empty());
            assert(applied(bytes.skip(0), offset, edits.skip(1)) =~= Seq::empty());
            assert(applied(bytes, offset, edits) =~= encode_utf8(joined(completion.skip(i))));
        } else {
            assert(completion.skip(i) =~= Seq::empty());
        }
    } else {
        lemma_position_from(completion, i, buffer[j]);
        let k = position_from(completion, i, buffer[j]);
        if k < completion.len() {
            let cluster = encode_utf8(buffer[j]);
            let rest = encode_utf8(joined(buffer.skip(j + 1)));
            let next = offset + cluster.len();
            let later = insertions_from(completion, buffer, k + 1, j + 1, next);
            let tail = laid_over(completion, buffer, k + 1, j + 1);
            lemma_cluster_bytes(buffer, j);
            law_insertions_apply(completion, buffer, k + 1, j + 1, next);
            lemma_first_offset(completion, buffer, k + 1, j + 1, next);
            lemma_applied_after(cluster, rest, offset, later);
            assert(applied(bytes, offset, later) == cluster + encode_utf8(tail));
            let gap = completion.subrange(i, k);
            let met = completion.subrange(i, k + 1);
            assert(met.drop_last() =~= gap && met.last() == buffer[j]);
            assert(joined(met) == joined(gap) + buffer[j]);
            lemma_encode_concat(joined(gap), buffer[j]);
            lemma_encode_concat(joined(met), tail);
            if k == i {
                assert(gap =~= Seq::empty());
                assert(encode_utf8(joined(gap)) =~= Seq::empty());
                assert(cluster + encode_utf8(tail) =~= encode_utf8(joined(met)) + encode_utf8(
                    tail,
                ));
            } else {
                assert(edits.skip(1) =~= later);
                assert(bytes.take(0) =~= Seq::empty());
                assert(bytes.skip(0) =~= bytes);
                assert(applied(bytes, offset, edits) =~= encode_utf8(joined(gap)) + (cluster
                    + encode_utf8(tail)));
                assert(encode_utf8(joined(gap)) + (cluster + encode_utf8(tail)) =~= encode_utf8(
                    joined(met),
                ) + encode_utf8(tail));
            }
        } else {
            assert(edits =~= Seq::empty());
        }
    }
}

/// What is read from cluster `i` of the completion and cluster `j` of the buffer on, and
/// where in it the clusters that are met stand.
proof fn lemma_laid_over(
    completion: Seq<Seq<char>>,
    buffer: Seq<Seq<char>>,
    i: int,
    j: int,
) -> (places: Seq<int>)
    requires
        0 <= i <= completion.len(),
        0 <= j <= buffer.len(),
    ensures
        ({
            let p = front_end(completion, buffer, i, j);
            let q = first_unmet(completion, buffer, i, j);
            &&& i <= p <= completion.len()
            &&& j <= q <= buffer.len()
            &&& q == buffer.len() ==> p == completion.len()
            &&& laid_over(completion, buffer, i, j) == joined(completion.subrange(i, p)) + joined(
                buffer.skip(q),
            )
            &&& stands_at(buffer.subrange(j, q), completion.take(p), places)
            &&& places.len() > 0 ==> i <= places[0]
        }),
    decreases buffer.len() - j,
{
    let p = front_end(completion, buffer, i, j);
    let q = first_unmet(completion, buffer, i, j);
    if j == buffer.len() {
        assert(completion.subrange(i, completion.len() as int) =~= completion.skip(i));
        assert(buffer.skip(j) =~= Seq::empty());
        assert(joined(completion.skip(i)) + joined(buffer.skip(j)) =~= joined(completion.skip(i)));
        Seq::empty()
    } else {
        lemma_position_from(completion, i, buffer[j]);
        let k = position_from(completion, i, buffer[j]);
        if k >= completion.len() {
            assert(completion.subrange(i, i) =~= Seq::empty());
            assert(joined(completion.subrange(i, i)) + joined(buffer.skip(j)) =~= joined(
                buffer.skip(j),
            ));
            Seq::empty()
        } else {
            let later = lemma_laid_over(completion, buffer, k + 1, j + 1);
            let head = completion.subrange(i, k + 1);
            let tail = completion.subrange(k + 1, p);
            lemma_joined_concat(head, tail);
            assert(head + tail =~= completion.subrange(i, p));
            let left = joined(buffer.skip(q));
            assert(joined(head) + (joined(tail) + left) =~= joined(head) + joined(tail) + left);
            let places = seq![k] + later;
            let part = buffer.subrange(j, q);
            let whole = completion.take(p);
            assert forall|l: int| #![trigger places[l]] 0 <= l < places.len() implies 0 <= places[l]
                < whole.len() && whole[places[l]] == part[l] by {
                if l > 0 {
                    assert(places[l] == later[l - 1]);
                    assert(part[l] == buffer.subrange(j + 1, q)[l - 1]);
                }
            }
            assert forall|l: int, m: int| 0 <= l < m < places.len() implies places[l]
                < places[m] by {
                assert(places[m] == later[m - 1]);
                if l > 0 {
                    assert(places[l] == later[l - 1]);
                } else if m > 1 {
                    assert(later[0] < later[m - 1]);
                }
            }
            places
        }
    }
}

/// Clusters that stand in the completion keep their order when the first is left out.
proof fn lemma_stands_later(
    completion: Seq<Seq<char>>,
    buffer: Seq<Seq<char>>,
    j: int,
    q: int,
    places: Seq<int>,
)
    requires
        0 <= j < q <= buffer.len(),
        stands_at(buffer.subrange(j, q), completion, places),
    ensures
        stands_at(buffer.subrange(j + 1, q), completion, places.skip(1)),
        0 <= places[0] < completion.len(),
        completion[places[0]] == buffer[j],
        places.skip(1).len() > 0 ==> places[0] < places.skip(1)[0],
{
    let later = places.skip(1);
    let part = buffer.subrange(j + 1, q);
    assert(buffer.subrange(j, q)[0] == buffer[j]);
    assert forall|l: int| #![trigger later[l]] 0 <= l < later.len() implies 0 <= later[l]
        < completion.len() && completion[later[l]] == part[l] by {
        assert(later[l] == places[l + 1]);
        assert(part[l] == buffer.subrange(j, q)[l + 1]);
    }
    assert forall|l: int, m: int| 0 <= l < m < later.len() implies later[l] < later[m] by {
        assert(later[l] == places[l + 1] && later[m] == places[m + 1]);
    }
    if later.len() > 0 {
        assert(later[0] == places[1]);
        assert(places[0] < places[1]);
    }
}

/// Clusters that stand in the completion in order are all met.
proof fn lemma_stands_met(
    completion: Seq<Seq<char>>,
    buffer: Seq<Seq<char>>,
    i: int,
    j: int,
    places: Seq<int>,
)
    requires
        0 <= i <= completion.len(),
        0 <= j <= buffer.len(),
        stands_at(buffer.subrange(j, buffer.len() as int), completion, places),
        places.len() > 0 ==> i <= places[0],
    ensures
        first_unmet(completion, buffer, i, j) == buffer.len(),
    decreases buffer.len() - j,
{
    if j < buffer.len() {
        lemma_position_from(completion, i, buffer[j]);
        let k = position_from(completion, i, buffer[j]);
        lemma_stands_later(completion, buffer, j, buffer.len() as int, places);
        assert(k <= places[0]);
        lemma_stands_met(completion, buffer, k + 1, j + 1, places.skip(1));
    }
}

/// Taking each time the next equal cluster misses nothing: every cluster of the buffer
/// is met exactly where the buffer stands in the completion in order, gaps allowed.
pub proof fn law_meeting_is_complete(completion: Seq<Seq<char>>, buffer: Seq<Seq<char>>)
    ensures
        first_unmet(completion, buffer, 0, 0) == buffer.len() <==> is_subsequence(
            buffer,
            completion,
        ),
{
    assert(buffer.subrange(0, buffer.len() as int) =~= buffer);
    if first_unmet(completion, buffer, 0, 0) == buffer.len() {
        let places = lemma_laid_over(completion, buffer, 0, 0);
        assert(completion.take(completion.len() as int) =~= completion);
        assert(stands_at(buffer, completion, places));
    }
    if is_subsequence(buffer, completion) {
        let places = choose|places: Seq<int>| stands_at(buffer, completion, places);
        lemma_stands_met(completion, buffer, 0, 0, places);
    }
}

/// Wherever the clusters that are met stand in the completion, the last of them stands no
/// earlier than the cluster that meets it.
proof fn lemma_front_end_least(
    completion: Seq<Seq<char>>,
    buffer: Seq<Seq<char>>,
    i: int,
    j: int,
    places: Seq<int>,
)
    requires
        0 <= i <= completion.len(),
        0 <= j <= buffer.len(),
        first_unmet(completion, buffer, i, j) < buffer.len(),
        stands_at(
            buffer.subrange(j, first_unmet(completion, buffer, i, j)),
            completion,
            places,
        ),
        places.len() > 0 ==> i <= places[0],
    ensures
        places.len() == 0 ==> front_end(completion, buffer, i, j) == i,
        places.len() > 0 ==> front_end(completion, buffer, i, j) <= places.last() + 1,
    decreases buffer.len() - j,
{
    let q = first_unmet(completion, buffer, i, j);
    lemma_position_from(completion, i, buffer[j]);
    let k = position_from(completion, i, buffer[j]);
    if k < completion.len() {
        let _ = lemma_laid_over(completion, buffer, k + 1, j + 1);
        lemma_stands_later(completion, buffer, j, q, places);
        assert(k <= places[0]);
        let later = places.skip(1);
        lemma_front_end_least(completion, buffer, k + 1, j + 1, later);
        if later.len() > 0 {
            assert(later.last() == places.last());
        } else {
            assert(places.last() == places[0]);
        }
    }
}

/// The first cluster that is not met is not met wherever those before it stand.
proof fn lemma_unmet_stands_nowhere(
    completion: Seq<Seq<char>>,
    buffer: Seq<Seq<char>>,
    i: int,
    j: int,
    places: Seq<int>,
)
    requires
        0 <= i <= completion.len(),
        0 <= j <= buffer.len(),
        first_unmet(completion, buffer, i, j) < buffer.len(),
        places.len() > 0 ==> i <= places[0],
    ensures
        !stands_at(
            buffer.subrange(j, first_unmet(completion, buffer, i, j) + 1),
            completion,
            places,
        ),
    decreases buffer.len() - j,
{
    let q = first_unmet(completion, buffer, i, j);
    let _ = lemma_laid_over(completion, buffer, i, j);
    if stands_at(buffer.subrange(j, q + 1), completion, places) {
        lemma_position_from(completion, i, buffer[j]);
        let k = position_from(completion, i, buffer[j]);
        lemma_stands_later(completion, buffer, j, q + 1, places);
        assert(k <= places[0]);
        lemma_unmet_stands_nowhere(completion, buffer, k + 1, j + 1, places.skip(1));
    }
}

/// A completion laid over a buffer reads a front part of the completion followed by the
/// buffer from its first cluster that is not met. As many clusters of the buffer are met
/// as can stand in the completion in order. Where every cluster is met, the front part is
/// the whole completion; else it is the shortest in which the clusters that are met stand
/// in order.
pub proof fn law_laid_over(completion: Seq<Seq<char>>, buffer: Seq<Seq<char>>)
    ensures
        ({
            let p = front_end(completion, buffer, 0, 0);
            let q = first_unmet(completion, buffer, 0, 0);
            &&& 0 <= p <= completion.len()
            &&& 0 <= q <= buffer.len()
            &&& laid_over(completion, buffer, 0, 0) == joined(completion.take(p)) + joined(
                buffer.skip(q),
            )
            &&& is_subsequence(buffer.take(q), completion.take(p))
            &&& q == buffer.len() ==> p == completion.len() && laid_over(completion, buffer, 0, 0)
                == joined(completion)
            &&& q < buffer.len() ==> {
                &&& !is_subsequence(buffer.take(q + 1), completion)
                &&& forall|m: int|
                    0 <= m < p ==> !#[trigger] is_subsequence(buffer.take(q), completion.take(m))
            }
        }),
{
    let places = lemma_laid_over(completion, buffer, 0, 0);
    let p = front_end(completion, buffer, 0, 0);
    let q = first_unmet(completion, buffer, 0, 0);
    assert(completion.take(p) =~= completion.subrange(0, p));
    assert(buffer.take(q) =~= buffer.subrange(0, q));
    assert(stands_at(buffer.take(q), completion.take(p), places));
    if q == buffer.len() {
        assert(completion.take(p) =~= completion);
        assert(buffer.skip(q) =~= Seq::empty());
        assert(joined(completion) + joined(buffer.skip(q)) =~= joined(completion));
    } else {
        assert(buffer.take(q + 1) =~= buffer.subrange(0, q + 1));
        let more = buffer.take(q + 1);
        if is_subsequence(more, completion) {
            let elsewhere = choose|places: Seq<int>| stands_at(more, completion, places);
            lemma_unmet_stands_nowhere(completion, buffer, 0, 0, elsewhere);
        }
        assert forall|m: int| 0 <= m < p implies !#[trigger] is_subsequence(
            buffer.take(q),
            completion.take(m),
        ) by {
            let front = completion.take(m);
            if is_subsequence(buffer.take(q), front) {
                let earlier = choose|places: Seq<int>| stands_at(buffer.take(q), front, places);
                assert forall|l: int| #![trigger earlier[l]] 0 <= l < earlier.len() implies 0
                    <= earlier[l] < completion.len() && completion[earlier[l]] == buffer.take(
                    q,
                )[l] by {
                    assert(front[earlier[l]] == completion[earlier[l]]);
                }
                assert(stands_at(buffer.subrange(0, q), completion, earlier));
                lemma_front_end_least(completion, buffer, 0, 0, earlier);
                if earlier.len() > 0 {
                    assert(earlier[earlier.len() - 1] < m);
                }
            }
        }
    }
}

/// A text with a character has a byte.
proof fn lemma_encode_not_empty(s: Seq<char>)
    requires
        s.len() > 0,
    ensures
        encode_utf8(s).len() > 0,
{
    assert(encode_scalar(s[0] as u32).len() > 0);
}

/// Some clusters, none of them empty, are not an empty text.
proof fn lemma_joined_not_empty(parts: Seq<Seq<char>>)
    requires
        parts.len() > 0,
        parts.last().len() > 0,
    ensures
        joined(parts).len() > 0,
{
}

/// Every insertion inserts something, each stands at a greater offset than the one
/// before, and all stand between the start of the buffer's text and its end.
pub proof fn law_insertions_in_order(
    completion: Seq<Seq<char>>,
    buffer: Seq<Seq<char>>,
    i: int,
    j: int,
    offset: int,
)
    requires
        0 <= i <= completion.len(),
        0 <= j <= buffer.len(),
        none_empty(completion),
        none_empty(buffer),
    ensures
        ({
            let edits = insertions_from(completion, buffer, i, j, offset);
            &&& forall|m: int|
                0 <= m < edits.len() ==> (#[trigger] edits[m]).text.len() > 0 && offset
                    <= edits[m].offset <= offset + encode_utf8(joined(buffer.skip(j))).len()
            &&& forall|m: int, n: int|
                0 <= m < n < edits.len() ==> (#[trigger] edits[m]).offset < (
                #[trigger] edits[n]).offset
        }),
    decreases buffer.len() - j,
{
    let edits = insertions_from(completion, buffer, i, j, offset);
    if j == buffer.len() {
        if i < completion.len() {
            let left = completion.skip(i);
            assert(left.last() == completion[completion.len() - 1]);
            lemma_joined_not_empty(left);
        }
    } else {
        lemma_position_from(completion, i, buffer[j]);
        let k = position_from(completion, i, buffer[j]);
        if k < completion.len() {
            let next = offset + encode_utf8(buffer[j]).len();
            let later = insertions_from(completion, buffer, k + 1, j + 1, next);
            lemma_cluster_bytes(buffer, j);
            lemma_encode_not_empty(buffer[j]);
            law_insertions_in_order(completion, buffer, k + 1, j + 1, next);
            if k > i {
                let gap = completion.subrange(i, k);
                assert(gap.last() == completion[k - 1]);
                lemma_joined_not_empty(gap);
                assert forall|m: int| 1 <= m < edits.len() implies #[trigger] edits[m] == later[m
                    - 1] by {}
            }
        }
    }
}

/// Only where every cluster of the buffer is met is anything inserted at its end.
pub proof fn law_insertion_at_end(
    completion: Seq<Seq<char>>,
    buffer: Seq<Seq<char>>,
    i: int,
    j: int,
    offset: int,
    m: int,
)
    requires
        0 <= i <= completion.len(),
        0 <= j <= buffer.len(),
        none_empty(buffer),
        0 <= m < insertions_from(completion, buffer, i, j, offset).len(),
        insertions_from(completion, buffer, i, j, offset)[m].offset == offset + encode_utf8(
            joined(buffer.skip(j)),
        ).len(),
    ensures
        first_unmet(completion, buffer, i, j) == buffer.len(),
    decreases buffer.len() - j,
{
    if j < buffer.len() {
        lemma_position_from(completion, i, buffer[j]);
        let k = position_from(completion, i, buffer[j]);
        lemma_cluster_bytes(buffer, j);
        lemma_encode_not_empty(buffer[j]);
        let next = offset + encode_utf8(buffer[j]).len();
        law_insertion_at_end(
            completion,
            buffer,
            k + 1,
            j + 1,
            next,
            if k == i {
                m
            } else {
                m - 1
            },
        );
    }
}

/// Texts of which none is empty make an empty text only where there are none.
pub proof fn law_empty_text(parts: Seq<Seq<char>>)
    requires
        none_empty(parts),
    ensures
        joined(parts).len() == 0 <==> parts.len() == 0,
{
    if parts.len() > 0 {
        assert(parts[parts.len() - 1].len() > 0);
        lemma_joined_not_empty(parts);
    }
}

/// What is inserted next. At the end of the buffer it is all that is left of the completion,
/// in one piece, and nothing where nothing is left.
pub proof fn law_inserted_last(
    completion: Seq<Seq<char>>,
    buffer: Seq<Seq<char>>,
    i: int,
    offset: int,
)
    requires
        0 <= i <= completion.len(),
    ensures
        ({
            let edits = insertions_from(completion, buffer, i, buffer.len() as int, offset);
            &&& i == completion.len() ==> edits.len() == 0
            &&& i < completion.len() ==> edits.len() == 1 && edits[0].offset == offset
                && edits[0].text == joined(completion.skip(i))
        }),
{
}

/// What is inserted next, before the end of the buffer. Where the next cluster of the
/// buffer is the cluster `k` of the completion and none before it, from `i` on, the clusters
/// before `k` are inserted in one piece, where there are any, and the next cluster of the
/// buffer, which starts behind this one, is looked for behind `k`.
pub proof fn law_inserted_next(
    completion: Seq<Seq<char>>,
    buffer: Seq<Seq<char>>,
    i: int,
    j: int,
    k: int,
    offset: int,
)
    requires
        0 <= i <= k < completion.len(),
        0 <= j < buffer.len(),
        completion[k] == buffer[j],
        forall|m: int| i <= m < k ==> #[trigger] completion[m] != buffer[j],
    ensures
        ({
            let edits = insertions_from(completion, buffer, i, j, offset);
            let later = insertions_from(
                completion,
                buffer,
                k + 1,
                j + 1,
                offset + encode_utf8(buffer[j]).len(),
            );
            &&& k == i ==> edits == later
            &&& k > i ==> edits.len() == 1 + later.len() && edits[0].offset == offset
                && edits[0].text == joined(completion.subrange(i, k)) && edits.skip(1) == later
        }),
{
    lemma_position_from(completion, i, buffer[j]);
    let found = position_from(completion, i, buffer[j]);
    assert(found == k) by {
        if found > k {
            assert(completion[k] != buffer[j]);
        }
    }
    let edits = insertions_from(completion, buffer, i, j, offset);
    let later = insertions_from(
        completion,
        buffer,
        k + 1,
        j + 1,
        offset + encode_utf8(buffer[j]).len(),
    );
    if k > i {
        assert(edits.skip(1) =~= later);
    }
}

/// What is inserted next. Where the next cluster of the buffer is nowhere in what is left of
/// the completion, it is nothing.
pub proof fn law_inserted_no_more(
    completion: Seq<Seq<char>>,
    buffer: Seq<Seq<char>>,
    i: int,
    j: int,
    offset: int,
)
    requires
        0 <= i <= completion.len(),
        0 <= j < buffer.len(),
        forall|m: int| i <= m < completion.len() ==> #[trigger] completion[m] != buffer[j],
    ensures
        insertions_from(completion, buffer, i, j, offset).len() == 0,
{
    lemma_position_from(completion, i, buffer[j]);
}

/// Texts one after another: none make none, one makes itself, and two runs of them make what
/// the first makes and then what the second makes.
pub proof fn law_joined(a: Seq<Seq<char>>, b: Seq<Seq<char>>, text: Seq<char>)
    ensures
        joined(Seq::<Seq<char>>::empty()).len() == 0,
        joined(seq![text]) == text,
        joined(a + b) == joined(a) + joined(b),
{
    lemma_joined_concat(a, b);
    lemma_joined_first(seq![text]);
    assert(seq![text].skip(1) =~= Seq::empty());
    assert(text + Seq::<char>::empty() =~= text);
}

/// No insertion leaves a text as it is; and one at byte `x.len()` of a text that starts at
/// byte `start` leaves what stands before it, is followed by what stands behind it, and
/// leaves that to the insertions that follow.
pub proof fn law_applied(
    x: Seq<u8>,
    y: Seq<u8>,
    start: int,
    edit: InsertionView,
    later: Seq<InsertionView>,
)
    requires
        edit.offset == start + x.len(),
    ensures
        applied(x, start, Seq::empty()) == x,
        applied(x + y, start, seq![edit] + later) == x + encode_utf8(edit.text) + applied(
            y,
            edit.offset,
            later,
        ),
{
    let n = x.len() as int;
    assert((x + y).take(n) =~= x);
    assert((x + y).skip(n) =~= y);
    assert((seq![edit] + later).skip(1) =~= later);
}

/// What insertions put where, and what strings hold, is read off them one by one.
pub proof fn law_insertion_fields(edits: Seq<Insertion>, strings: Seq<String>)
    ensures
        insertions_view(edits).len() == edits.len(),
        forall|i: int|
            0 <= i < edits.len() ==> (#[trigger] insertions_view(edits)[i]).offset
                == edits[i].offset && insertions_view(edits)[i].text == edits[i].text@,
        texts(strings).len() == strings.len(),
        forall|i: int| 0 <= i < strings.len() ==> #[trigger] texts(strings)[i] == strings[i]@,
        none_empty(texts(strings)) <==> forall|i: int|
            0 <= i < strings.len() ==> (#[trigger] strings[i])@.len() > 0,
{
    assert forall|i: int| 0 <= i < strings.len() implies #[trigger] texts(strings)[i]
        == strings[i]@ by {}
    if none_empty(texts(strings)) {
        assert forall|i: int| 0 <= i < strings.len() implies (#[trigger] strings[i])@.len() > 0 by {
            assert(texts(strings)[i].len() > 0);
        }
    }
    if forall|i: int| 0 <= i < strings.len() ==> (#[trigger] strings[i])@.len() > 0 {
        assert forall|i: int| 0 <= i < texts(strings).len() implies (
        #[trigger] texts(strings)[i]).len() > 0 by {
            assert(strings[i]@.len() > 0);
        }
    }
}

/// Some clusters stand in others in order exactly where there are none of them, or the first
/// of them is one of the others and the rest stand, in order, in what follows it.
pub proof fn law_subsequence(part: Seq<Seq<char>>, whole: Seq<Seq<char>>)
    ensures
        part.len() == 0 ==> is_subsequence(part, whole),
        part.len() > 0 ==> (is_subsequence(part, whole) <==> exists|k: int|
            0 <= k < whole.len() && whole[k] == part[0] && #[trigger] is_subsequence(
                part.skip(1),
                whole.skip(k + 1),
            )),
{
    if part.len() == 0 {
        assert(stands_at(part, whole, Seq::empty()));
    } else {
        if is_subsequence(part, whole) {
            let places = choose|places: Seq<int>| stands_at(part, whole, places);
            let k = places[0];
            let tail = part.skip(1);
            let after = whole.skip(k + 1);
            let later = Seq::new(tail.len(), |l: int| places[l + 1] - (k + 1));
            assert forall|l: int| #![trigger later[l]] 0 <= l < later.len() implies 0 <= later[l]
                < after.len() && after[later[l]] == tail[l] by {
                assert(places[0] < places[l + 1]);
                assert(whole[places[l + 1]] == part[l + 1]);
            }
            assert forall|l: int, m: int| 0 <= l < m < later.len() implies later[l] < later[m] by {
                assert(places[l + 1] < places[m + 1]);
            }
            assert(stands_at(tail, after, later));
            assert(is_subsequence(part.skip(1), whole.skip(k + 1)));
        }
        if exists|k: int|
            0 <= k < whole.len() && whole[k] == part[0] && #[trigger] is_subsequence(
                part.skip(1),
                whole.skip(k + 1),
            ) {
            let k = choose|k: int|
                0 <= k < whole.len() && whole[k] == part[0] && #[trigger] is_subsequence(
                    part.skip(1),
                    whole.skip(k + 1),
                );
            let tail = part.skip(1);
            let after = whole.skip(k + 1);
            let later = choose|places: Seq<int>| stands_at(tail, after, places);
            let places = Seq::new(
                part.len(),
                |l: int|
                    if l == 0 {
                        k
                    } else {
                        later[l - 1] + k + 1
                    },
            );
            assert forall|l: int| #![trigger places[l]] 0 <= l < places.len() implies 0 <= places[l]
                < whole.len() && whole[places[l]] == part[l] by {
                if l > 0 {
                    assert(after[later[l - 1]] == tail[l - 1]);
                }
            }
            assert forall|l: int, m: int| 0 <= l < m < places.len() implies places[l]
                < places[m] by {
                assert(0 <= later[m - 1]);
                if l > 0 {
                    assert(later[l - 1] < later[m - 1]);
                }
            }
            assert(stands_at(part, whole, places));
        }
    }
}

/// What `law_beginning` says, from cluster `j` of the buffer on.
proof fn lemma_beginning(completion: Seq<Seq<char>>, n: int, j: int, offset: int)
    requires
        0 <= j <= n <= completion.len(),
    ensures
        insertions_from(completion, completion.take(n), j, j, offset) == if n < completion.len() {
            seq![
                InsertionView {
                    offset: offset + encode_utf8(joined(completion.take(n).skip(j))).len(),
                    text: joined(completion.skip(n)),
                },
            ]
        } else {
            Seq::empty()
        },
    decreases n - j,
{
    let buffer = completion.take(n);
    if j < n {
        assert(buffer[j] == completion[j]);
        lemma_cluster_bytes(buffer, j);
        lemma_beginning(completion, n, j + 1, offset + encode_utf8(buffer[j]).len());
    } else {
        assert(buffer.skip(j) =~= Seq::empty());
    }
}

/// Over a buffer that holds a beginning of the completion, the rest of the completion is
/// inserted at the end, in one piece: all of it over an empty buffer, and nothing over a
/// buffer that already reads as the completion.
pub proof fn law_beginning(completion: Seq<Seq<char>>, n: int, offset: int)
    requires
        0 <= n <= completion.len(),
    ensures
        insertions_from(completion, completion.take(n), 0, 0, offset) == if n < completion.len() {
            seq![
                InsertionView {
                    offset: offset + encode_utf8(joined(completion.take(n))).len(),
                    text: joined(completion.skip(n)),
                },
            ]
        } else {
            Seq::empty()
        },
{
    lemma_beginning(completion, n, 0, offset);
    assert(completion.take(n).skip(0) =~= completion.take(n));
}

/// The clusters from `i` up to `k`, one after another.
fn join(parts: &Vec<String>, i: usize, k: usize) -> (text: String)
    requires
        i <= k <= parts@.len(),
    ensures
        text@ == joined(texts(parts@).subrange(i as int, k as int)),
{
    let mut text = String::new();
    let mut m: usize = i;
    assert(texts(parts@).subrange(i as int, i as int) =~= Seq::empty());
    while m < k
        invariant
            i <= m <= k <= parts@.len(),
            text@ == joined(texts(parts@).subrange(i as int, m as int)),
        decreases k - m,
    {
        text.append(parts[m].as_str());
        proof {
            let longer = texts(parts@).subrange(i as int, m + 1);
            assert(longer.drop_last() =~= texts(parts@).subrange(i as int, m as int));
            assert(longer.last() == parts@[m as int]@);
        }
        m = m + 1;
    }
    text
}

/// Where `cluster` first stands among `parts` from `i` on; their number where it does
/// not.
fn find_from(parts: &Vec<String>, i: usize, cluster: &String) -> (k: usize)
    requires
        i <= parts@.len(),
    ensures
        k == position_from(texts(parts@), i as int, cluster@),
{
    let mut k: usize = i;
    while k < parts.len()
        invariant
            i <= k <= parts@.len(),
            position_from(texts(parts@), i as int, cluster@) == position_from(
                texts(parts@),
                k as int,
                cluster@,
            ),
        decreases parts@.len() - k,
    {
        assert(texts(parts@)[k as int] == parts@[k as int]@);
        if parts[k] == *cluster {
            return k;
        }
        k = k + 1;
    }
    k
}

/// The insertions that lay the clusters of a completion over the clusters of a buffer
/// that stands at byte `position`.
pub fn diff_clusters(completion: &Vec<String>, buffer: &Vec<String>, position: usize) -> (edits:
    Vec<Insertion>)
    requires
        position + encode_utf8(joined(texts(buffer@))).len() <= usize::MAX,
    ensures
        insertions_view(edits@) == insertions_from(
            texts(completion@),
            texts(buffer@),
            0,
            0,
            position as int,
        ),
{
    let mut edits: Vec<Insertion> = Vec::new();
    let mut offset: usize = position;
    let mut i: usize = 0;
    let mut j: usize = 0;
    let ghost c = texts(completion@);
    let ghost b = texts(buffer@);
    let ghost all = insertions_from(c, b, 0, 0, position as int);
    assert(b.skip(0) =~= b);
    assert(insertions_view(edits@) + all =~= all);
    while j < buffer.len()
        invariant
            c == texts(completion@),
            b == texts(buffer@),
            i <= completion@.len(),
            j <= buffer@.len(),
            offset + encode_utf8(joined(b.skip(j as int))).len() <= usize::MAX,
            all == insertions_view(edits@) + insertions_from(
                c,
                b,
                i as int,
                j as int,
                offset as int,
            ),
            all == insertions_from(c, b, 0, 0, position as int),
        decreases buffer@.len() - j,
    {
        let k: usize = find_from(completion, i, &buffer[j]);
        let ghost before = insertions_view(edits@);
        proof {
            lemma_position_from(c, i as int, b[j as int]);
            lemma_cluster_bytes(b, j as int);
        }
        if k == completion.len() {
            assert(all =~= insertions_view(edits@));
            return edits;
        }
        if k != i {
            let text = join(completion, i, k);
            let edit = Insertion { offset, text };
            edits.push(edit);
            assert(insertions_view(edits@) =~= before.push(edit@));
        }
        let cluster_len: usize = buffer[j].as_str().as_bytes().len();
        proof {
            let later = insertions_from(
                c,
                b,
                k + 1,
                j + 1,
                offset + encode_utf8(b[j as int]).len(),
            );
            assert(all =~= insertions_view(edits@) + later);
        }
        offset = offset + cluster_len;
        i = k + 1;
        j = j + 1;
    }
    if i < completion.len() {
        let ghost before = insertions_view(edits@);
        let text = join(completion, i, completion.len());
        let edit = Insertion { offset, text };
        edits.push(edit);
        assert(c.subrange(i as int, c.len() as int) =~= c.skip(i as int));
        assert(insertions_view(edits@) =~= before.push(edit@));
        assert(insertions_view(edits@) =~= all);
    } else {
        assert(insertions_view(edits@) =~= all);
    }
    edits
}

/// The insertions that turn the text of a buffer, which starts at byte `position`, into
/// a completion. Where the text does not stand in the completion in order, they turn it
/// into a front part of the completion followed by what was not met of the text.
pub fn completion_from_diff(buffer_text: &str, completion_text: &str, position: usize) -> (edits:
    Vec<Insertion>)
    requires
        position + encode_utf8(buffer_text@).len() <= usize::MAX,
    ensures
        insertions_view(edits@) == prediction(buffer_text@, completion_text@, position as int),
        insertions_view(edits@) == insertions_from(
            grapheme_clusters(completion_text@),
            grapheme_clusters(buffer_text@),
            0,
            0,
            position as int,
        ),
        joined(grapheme_clusters(buffer_text@)) == buffer_text@,
        joined(grapheme_clusters(completion_text@)) == completion_text@,
        none_empty(grapheme_clusters(buffer_text@)),
        none_empty(grapheme_clusters(completion_text@)),
        applied(encode_utf8(buffer_text@), position as int, insertions_view(edits@))
            == encode_utf8(
            laid_over(
                grapheme_clusters(completion_text@),
                grapheme_clusters(buffer_text@),
                0,
                0,
            ),
        ),
        is_subsequence(grapheme_clusters(buffer_text@), grapheme_clusters(completion_text@))
            ==> applied(encode_utf8(buffer_text@), position as int, insertions_view(edits@))
            == encode_utf8(completion_text@),
        forall|m: int|
            0 <= m < edits@.len() ==> (#[trigger] edits@[m]).text@.len() > 0 && position
                <= edits@[m].offset <= position + encode_utf8(buffer_text@).len(),
        forall|m: int, n: int|
            0 <= m < n < edits@.len() ==> (#[trigger] edits@[m]).offset < (
            #[trigger] edits@[n]).offset,
{
    let completion = graphemes(completion_text);
    let buffer = graphemes(buffer_text);
    let edits = diff_clusters(&completion, &buffer, position);
    proof {
        let c = texts(completion@);
        let b = texts(buffer@);
        assert(b.skip(0) =~= b);
        law_insertions_apply(c, b, 0, 0, position as int);
        law_meeting_is_complete(c, b);
        law_laid_over(c, b);
        law_insertions_in_order(c, b, 0, 0, position as int);
        assert forall|m: int| 0 <= m < edits@.len() implies #[trigger] edits@[m]@
            == insertions_view(edits@)[m] by {}
        assert forall|m: int| 0 <= m < edits@.len() implies (#[trigger] edits@[m]).text@.len() > 0
            && position <= edits@[m].offset <= position + encode_utf8(buffer_text@).len() by {
            assert(edits@[m]@ == insertions_view(edits@)[m]);
        }
        assert forall|m: int, n: int| 0 <= m < n < edits@.len() implies (
        #[trigger] edits@[m]).offset < (#[trigger] edits@[n]).offset by {
            assert(edits@[m]@ == insertions_view(edits@)[m]);
            assert(edits@[n]@ == insertions_view(edits@)[n]);
        }
    }
    edits
}

} // verus!
