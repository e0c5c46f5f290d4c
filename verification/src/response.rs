//! The response object in the DoH JSON shape, its builder, and its exact
//! JSON text. Keys are emitted in lexicographic order; the `Question` and
//! `Answer` keys are omitted when their lists are empty, and `comment`
//! when unset.
use crate::text::{dec_of, dec_of_int, digit_char, digit_str};
use vstd::prelude::*;
use vstd::seq_lib::lemma_concat_associative;
use vstd::string::*;

verus! {

/// One question entry: the queried name and record type.
#[derive(Clone, Debug)]
pub struct Question {
    pub name: String,
    pub rtype: u16,
}

/// One answer entry: owner name, record type, time to live, and the
/// record data rendered as a string.
#[derive(Clone, Debug)]
pub struct Answer {
    pub name: String,
    pub rtype: u16,
    pub ttl: u32,
    pub data: String,
}

/// The assembled response: a status, five header flags, the question and
/// answer lists, and an optional diagnostic comment.
#[derive(Clone, Debug)]
pub struct Response {
    pub status: i32,
    pub tc: bool,
    pub rd: bool,
    pub ra: bool,
    pub ad: bool,
    pub cd: bool,
    pub questions: Vec<Question>,
    pub answers: Vec<Answer>,
    pub comment: Option<String>,
}

/// A mutable accumulator for a response. `add_question` and `add_answer`
/// append in call order; nothing is deduplicated or reordered.
pub struct ResponseBuilder {
    pub status: i32,
    pub tc: bool,
    pub rd: bool,
    pub ra: bool,
    pub ad: bool,
    pub cd: bool,
    pub questions: Vec<Question>,
    pub answers: Vec<Answer>,
    pub comment: Option<String>,
}

impl ResponseBuilder {
    /// A fresh builder: status NoError, recursion desired and available,
    /// nothing else set.
    pub fn new() -> (r: Self)
        ensures
            r.status == 0,
            r.tc == false,
            r.rd == true,
            r.ra == true,
            r.ad == false,
            r.cd == false,
            r.questions@ =~= Seq::<Question>::empty(),
            r.answers@ =~= Seq::<Answer>::empty(),
            r.comment is None,
    {
        ResponseBuilder {
            status: 0,
            tc: false,
            rd: true,
            ra: true,
            ad: false,
            cd: false,
            questions: Vec::new(),
            answers: Vec::new(),
            comment: None,
        }
    }

    pub fn status(self, status: i32) -> (r: Self)
        ensures
            r == (ResponseBuilder { status, ..self }),
    {
        ResponseBuilder { status, ..self }
    }

    pub fn rd(self, rd: bool) -> (r: Self)
        ensures
            r == (ResponseBuilder { rd, ..self }),
    {
        ResponseBuilder { rd, ..self }
    }

    pub fn ra(self, ra: bool) -> (r: Self)
        ensures
            r == (ResponseBuilder { ra, ..self }),
    {
        ResponseBuilder { ra, ..self }
    }

    pub fn ad(self, ad: bool) -> (r: Self)
        ensures
            r == (ResponseBuilder { ad, ..self }),
    {
        ResponseBuilder { ad, ..self }
    }

    pub fn comment(self, comment: String) -> (r: Self)
        ensures
            r == (ResponseBuilder { comment: Some(comment), ..self }),
    {
        ResponseBuilder { comment: Some(comment), ..self }
    }

    /// Appends one question entry.
    pub fn add_question(self, name: &str, record_type: u16) -> (r: Self)
        ensures
            r.questions@.len() == self.questions@.len() + 1,
            forall|i: int|
                0 <= i < self.questions@.len() ==> r.questions@[i] == self.questions@[i],
            r.questions@.last().name@ == name@,
            r.questions@.last().rtype == record_type,
            r.status == self.status && r.tc == self.tc && r.rd == self.rd && r.ra == self.ra
                && r.ad == self.ad && r.cd == self.cd && r.answers == self.answers && r.comment
                == self.comment,
    {
        let mut s = self;
        s.questions.push(Question { name: String::from_str(name), rtype: record_type });
        s
    }

    /// Appends one answer entry.
    pub fn add_answer(self, name: &str, record_type: u16, ttl: u32, data: &str) -> (r: Self)
        ensures
            r.answers@.len() == self.answers@.len() + 1,
            forall|i: int| 0 <= i < self.answers@.len() ==> r.answers@[i] == self.answers@[i],
            r.answers@.last().name@ == name@,
            r.answers@.last().rtype == record_type,
            r.answers@.last().ttl == ttl,
            r.answers@.last().data@ == data@,
            r.status == self.status && r.tc == self.tc && r.rd == self.rd && r.ra == self.ra
                && r.ad == self.ad && r.cd == self.cd && r.questions == self.questions && r.comment
                == self.comment,
    {
        let mut s = self;
        s.answers.push(
            Answer {
                name: String::from_str(name),
                rtype: record_type,
                ttl,
                data: String::from_str(data),
            },
        );
        s
    }

    /// Finalizes the accumulated state into a response.
    pub fn build(self) -> (r: Response)
        ensures
            r.status == self.status,
            r.tc == self.tc,
            r.rd == self.rd,
            r.ra == self.ra,
            r.ad == self.ad,
            r.cd == self.cd,
            r.questions == self.questions,
            r.answers == self.answers,
            r.comment == self.comment,
    {
        Response {
            status: self.status,
            tc: self.tc,
            rd: self.rd,
            ra: self.ra,
            ad: self.ad,
            cd: self.cd,
            questions: self.questions,
            answers: self.answers,
            comment: self.comment,
        }
    }

    /// A minimal error response: the given status and message, recursion
    /// flags set, no question or answer entries, DNSSEC flag off.
    pub fn error(status: i32, message: &str) -> (r: Response)
        ensures
            r.status == status,
            r.tc == false,
            r.rd == true,
            r.ra == true,
            r.ad == false,
            r.cd == false,
            r.questions@ =~= Seq::<Question>::empty(),
            r.answers@ =~= Seq::<Answer>::empty(),
            r.comment matches Some(c) && c@ == message@,
    {
        Response {
            status,
            tc: false,
            rd: true,
            ra: true,
            ad: false,
            cd: false,
            questions: Vec::new(),
            answers: Vec::new(),
            comment: Some(String::from_str(message)),
        }
    }
}

/// How one character appears inside a JSON string: quotes and backslashes
/// escaped, the named control escapes, other control characters in
/// `\u00..` form, everything else itself.
pub open spec fn escaped_char(c: char) -> Seq<char> {
    if c == '"' {
        seq!['\\', '"']
    } else if c == '\\' {
        seq!['\\', '\\']
    } else if c == '\n' {
        seq!['\\', 'n']
    } else if c == '\r' {
        seq!['\\', 'r']
    } else if c == '\t' {
        seq!['\\', 't']
    } else if c as u32 == 8 {
        seq!['\\', 'b']
    } else if c as u32 == 12 {
        seq!['\\', 'f']
    } else if (c as u32) < 32 {
        seq![
            '\\',
            'u',
            '0',
            '0',
            digit_char(((c as u32) / 16) as nat),
            digit_char(((c as u32) % 16) as nat),
        ]
    } else {
        seq![c]
    }
}

/// A character sequence as it appears inside a JSON string literal.
pub open spec fn json_escaped(s: Seq<char>) -> Seq<char>
    decreases s.len(),
{
    if s.len() == 0 {
        Seq::empty()
    } else {
        json_escaped(s.drop_last()) + escaped_char(s.last())
    }
}

pub open spec fn json_bool(b: bool) -> Seq<char> {
    if b {
        "true"@
    } else {
        "false"@
    }
}

/// One question entry as a JSON object.
pub open spec fn question_obj(q: Question) -> Seq<char> {
    "{\"name\":\""@ + json_escaped(q.name@) + "\",\"type\":"@ + dec_of(q.rtype as nat) + "}"@
}

/// One answer entry as a JSON object.
pub open spec fn answer_obj(a: Answer) -> Seq<char> {
    "{\"TTL\":"@ + dec_of(a.ttl as nat) + ",\"data\":\""@ + json_escaped(a.data@)
        + "\",\"name\":\""@ + json_escaped(a.name@) + "\",\"type\":"@ + dec_of(a.rtype as nat)
        + "}"@
}

/// The question objects, comma-separated.
pub open spec fn questions_items(qs: Seq<Question>) -> Seq<char>
    decreases qs.len(),
{
    if qs.len() == 0 {
        Seq::empty()
    } else if qs.len() == 1 {
        question_obj(qs[0])
    } else {
        questions_items(qs.drop_last()) + ","@ + question_obj(qs.last())
    }
}

/// The answer objects, comma-separated.
pub open spec fn answers_items(ans: Seq<Answer>) -> Seq<char>
    decreases ans.len(),
{
    if ans.len() == 0 {
        Seq::empty()
    } else if ans.len() == 1 {
        answer_obj(ans[0])
    } else {
        answers_items(ans.drop_last()) + ","@ + answer_obj(ans.last())
    }
}

/// The `Question` key with its array, or nothing when the list is empty.
pub open spec fn question_key_part(qs: Seq<Question>) -> Seq<char> {
    if qs.len() == 0 {
        Seq::empty()
    } else {
        ",\"Question\":["@ + questions_items(qs) + "]"@
    }
}

/// The `Answer` key with its array, or nothing when the list is empty.
pub open spec fn answer_key_part(ans: Seq<Answer>) -> Seq<char> {
    if ans.len() == 0 {
        Seq::empty()
    } else {
        ",\"Answer\":["@ + answers_items(ans) + "]"@
    }
}

/// The `comment` key with its string, or nothing when unset.
pub open spec fn comment_part(c: Option<String>) -> Seq<char> {
    match c {
        Option::None => Seq::empty(),
        Option::Some(s) => ",\"comment\":\""@ + json_escaped(s@) + "\""@,
    }
}

/// The exact JSON text of a response, keys in lexicographic order.
pub open spec fn json_of_response(r: Response) -> Seq<char> {
    "{\"AD\":"@ + json_bool(r.ad) + answer_key_part(r.answers@) + ",\"CD\":"@ + json_bool(r.cd)
        + question_key_part(r.questions@) + ",\"RA\":"@ + json_bool(r.ra) + ",\"RD\":"@
        + json_bool(r.rd) + ",\"Status\":"@ + dec_of_int(r.status as int) + ",\"TC\":"@
        + json_bool(r.tc) + comment_part(r.comment) + "}"@
}

/// Appends `s` with JSON string escaping to `out`.
pub fn push_json_escaped(out: &mut String, s: &str)
    ensures
        final(out)@ == old(out)@ + json_escaped(s@),
{
    let n = s.unicode_len();
    let mut i: usize = 0;
    while i < n
        invariant
            i <= n,
            n == s@.len(),
            out@ == old(out)@ + json_escaped(s@.take(i as int)),
        decreases n - i,
    {
        let c = s.get_char(i);
        if c == '"' {
            out.append("\\\"");
            proof {
                reveal_strlit("\\\"");
                assert("\\\""@ =~= escaped_char(c));
            }
        } else if c == '\\' {
            out.append("\\\\");
            proof {
                reveal_strlit("\\\\");
                assert("\\\\"@ =~= escaped_char(c));
            }
        } else if c == '\n' {
            out.append("\\n");
            proof {
                reveal_strlit("\\n");
                assert("\\n"@ =~= escaped_char(c));
            }
        } else if c == '\r' {
            out.append("\\r");
            proof {
                reveal_strlit("\\r");
                assert("\\r"@ =~= escaped_char(c));
            }
        } else if c == '\t' {
            out.append("\\t");
            proof {
                reveal_strlit("\\t");
                assert("\\t"@ =~= escaped_char(c));
            }
        } else if (c as u32) == 8 {
            out.append("\\b");
            proof {
                reveal_strlit("\\b");
                assert("\\b"@ =~= escaped_char(c));
            }
        } else if (c as u32) == 12 {
            out.append("\\f");
            proof {
                reveal_strlit("\\f");
                assert("\\f"@ =~= escaped_char(c));
            }
        } else if (c as u32) < 32 {
            let v = c as u32;
            out.append("\\u00");
            out.append(digit_str((v / 16) as u8));
            out.append(digit_str((v % 16) as u8));
            proof {
                reveal_strlit("\\u00");
                assert("\\u00"@ + seq![digit_char((v / 16) as nat)] + seq![
                    digit_char((v % 16) as nat),
                ] =~= escaped_char(c));
            }
        } else {
            let piece = s.substring_char(i, i + 1);
            out.append(piece);
            proof {
                assert(piece@ =~= seq![c]);
                assert(seq![c] =~= escaped_char(c));
            }
        }
        proof {
            assert(s@.take(i + 1 as int).drop_last() =~= s@.take(i as int));
            assert(s@.take(i + 1 as int).last() == c);
            assert(out@ =~= old(out)@ + json_escaped(s@.take(i + 1 as int)));
        }
        i = i + 1;
    }
    proof {
        assert(s@.take(n as int) =~= s@);
    }
}

fn push_bool(out: &mut String, b: bool)
    ensures
        final(out)@ == old(out)@ + json_bool(b),
{
    if b {
        out.append("true");
    } else {
        out.append("false");
    }
}

fn push_question_obj(out: &mut String, q: &Question)
    ensures
        final(out)@ == old(out)@ + question_obj(*q),
{
    out.append("{\"name\":\"");
    push_json_escaped(out, q.name.as_str());
    out.append("\",\"type\":");
    crate::text::push_dec_u64(out, q.rtype as u64);
    out.append("}");
    proof {
        assert(final(out)@ =~= old(out)@ + question_obj(*q));
    }
}

fn push_answer_obj(out: &mut String, a: &Answer)
    ensures
        final(out)@ == old(out)@ + answer_obj(*a),
{
    out.append("{\"TTL\":");
    crate::text::push_dec_u64(out, a.ttl as u64);
    out.append(",\"data\":\"");
    push_json_escaped(out, a.data.as_str());
    out.append("\",\"name\":\"");
    push_json_escaped(out, a.name.as_str());
    out.append("\",\"type\":");
    crate::text::push_dec_u64(out, a.rtype as u64);
    out.append("}");
    proof {
        assert(final(out)@ =~= old(out)@ + answer_obj(*a));
    }
}

fn push_questions(out: &mut String, qs: &Vec<Question>)
    ensures
        final(out)@ == old(out)@ + questions_items(qs@),
{
    let mut i: usize = 0;
    while i < qs.len()
        invariant
            i <= qs@.len(),
            out@ == old(out)@ + questions_items(qs@.take(i as int)),
        decreases qs@.len() - i,
    {
        if i > 0 {
            out.append(",");
        }
        push_question_obj(out, &qs[i]);
        proof {
            assert(qs@.take(i + 1 as int).drop_last() =~= qs@.take(i as int));
            assert(qs@.take(i + 1 as int).last() == qs@[i as int]);
            assert(out@ =~= old(out)@ + questions_items(qs@.take(i + 1 as int)));
        }
        i = i + 1;
    }
    proof {
        assert(qs@.take(qs@.len() as int) =~= qs@);
    }
}

fn push_answers(out: &mut String, ans: &Vec<Answer>)
    ensures
        final(out)@ == old(out)@ + answers_items(ans@),
{
    let mut i: usize = 0;
    while i < ans.len()
        invariant
            i <= ans@.len(),
            out@ == old(out)@ + answers_items(ans@.take(i as int)),
        decreases ans@.len() - i,
    {
        if i > 0 {
            out.append(",");
        }
        push_answer_obj(out, &ans[i]);
        proof {
            assert(ans@.take(i + 1 as int).drop_last() =~= ans@.take(i as int));
            assert(ans@.take(i + 1 as int).last() == ans@[i as int]);
            assert(out@ =~= old(out)@ + answers_items(ans@.take(i + 1 as int)));
        }
        i = i + 1;
    }
    proof {
        assert(ans@.take(ans@.len() as int) =~= ans@);
    }
}

/// Serializes a response into its exact JSON text.
pub fn to_json(r: &Response) -> (out: String)
    ensures
        out@ == json_of_response(*r),
{
    let mut out = String::from_str("{\"AD\":");
    push_bool(&mut out, r.ad);
    let ghost pre1 = "{\"AD\":"@ + json_bool(r.ad);
    if r.answers.len() > 0 {
        out.append(",\"Answer\":[");
        push_answers(&mut out, &r.answers);
        out.append("]");
        proof {
            lemma_concat_associative(pre1, ",\"Answer\":["@, answers_items(r.answers@));
            lemma_concat_associative(pre1, ",\"Answer\":["@ + answers_items(r.answers@), "]"@);
            assert(out@ == pre1 + answer_key_part(r.answers@));
        }
    }
    let ghost pre2 = pre1 + answer_key_part(r.answers@);
    proof {
        if r.answers@.len() == 0 {
            assert(pre1 + answer_key_part(r.answers@) =~= pre1);
        }
    }
    out.append(",\"CD\":");
    push_bool(&mut out, r.cd);
    let ghost pre3 = pre2 + ",\"CD\":"@ + json_bool(r.cd);
    if r.questions.len() > 0 {
        out.append(",\"Question\":[");
        push_questions(&mut out, &r.questions);
        out.append("]");
        proof {
            lemma_concat_associative(pre3, ",\"Question\":["@, questions_items(r.questions@));
            lemma_concat_associative(pre3, ",\"Question\":["@ + questions_items(r.questions@), "]"@);
            assert(out@ == pre3 + question_key_part(r.questions@));
        }
    }
    let ghost pre4 = pre3 + question_key_part(r.questions@);
    proof {
        if r.questions@.len() == 0 {
            assert(pre3 + question_key_part(r.questions@) =~= pre3);
        }
    }
    out.append(",\"RA\":");
    push_bool(&mut out, r.ra);
    out.append(",\"RD\":");
    push_bool(&mut out, r.rd);
    let ghost pre5 = pre4 + ",\"RA\":"@ + json_bool(r.ra) + ",\"RD\":"@ + json_bool(r.rd);
    out.append(",\"Status\":");
    crate::text::push_dec_i64(&mut out, r.status as i64);
    out.append(",\"TC\":");
    push_bool(&mut out, r.tc);
    let ghost pre6 = pre5 + ",\"Status\":"@ + dec_of_int(r.status as int) + ",\"TC\":"@ + json_bool(
        r.tc,
    );
    match &r.comment {
        Option::Some(c) => {
            out.append(",\"comment\":\"");
            push_json_escaped(&mut out, c.as_str());
            out.append("\"");
            proof {
                lemma_concat_associative(pre6, ",\"comment\":\""@, json_escaped(c@));
                lemma_concat_associative(pre6, ",\"comment\":\""@ + json_escaped(c@), "\""@);
                assert(out@ == pre6 + comment_part(r.comment));
            }
        },
        Option::None => {},
    }
    let ghost pre7 = pre6 + comment_part(r.comment);
    proof {
        if r.comment is None {
            assert(pre6 + comment_part(r.comment) =~= pre6);
        }
    }
    out.append("}");
    proof {
        assert(out@ == pre7 + "}"@);
        assert(pre7 + "}"@ == json_of_response(*r));
    }
    out
}

/// The `Question`, `Answer` and `comment` keys are present in the JSON
/// text exactly when there is something to report: an empty list or an
/// unset comment contributes nothing at all, not an empty array.
pub proof fn lemma_key_omission(r: Response)
    ensures
        (r.questions@.len() == 0) <==> question_key_part(r.questions@) == Seq::<char>::empty(),
        (r.answers@.len() == 0) <==> answer_key_part(r.answers@) == Seq::<char>::empty(),
        (r.comment is None) <==> comment_part(r.comment) == Seq::<char>::empty(),
{
    reveal_strlit(",\"Question\":[");
    reveal_strlit(",\"Answer\":[");
    reveal_strlit(",\"comment\":\"");
    if r.questions@.len() > 0 {
        assert(question_key_part(r.questions@).len() > 0);
    }
    if r.answers@.len() > 0 {
        assert(answer_key_part(r.answers@).len() > 0);
    }
    if r.comment is Some {
        assert(comment_part(r.comment).len() > 0);
    }
}

/// Question lists whose entries agree in name text and record type
/// produce the same JSON items.
pub proof fn lemma_questions_items_congruent(a: Seq<Question>, b: Seq<Question>)
    requires
        a.len() == b.len(),
        forall|i: int|
            0 <= i < a.len() ==> (#[trigger] a[i]).name@ == b[i].name@ && a[i].rtype == b[i].rtype,
    ensures
        questions_items(a) == questions_items(b),
    decreases a.len(),
{
    if a.len() > 0 {
        lemma_questions_items_congruent(a.drop_last(), b.drop_last());
        assert(question_obj(a.last()) == question_obj(b.last()));
    }
}

/// Answer lists whose entries agree in all rendered fields produce the
/// same JSON items.
pub proof fn lemma_answers_items_congruent(a: Seq<Answer>, b: Seq<Answer>)
    requires
        a.len() == b.len(),
        forall|i: int|
            0 <= i < a.len() ==> (#[trigger] a[i]).name@ == b[i].name@ && a[i].rtype == b[i].rtype
                && a[i].ttl == b[i].ttl && a[i].data@ == b[i].data@,
    ensures
        answers_items(a) == answers_items(b),
    decreases a.len(),
{
    if a.len() > 0 {
        lemma_answers_items_congruent(a.drop_last(), b.drop_last());
        assert(answer_obj(a.last()) == answer_obj(b.last()));
    }
}

/// Two responses that agree in status, flags, entry contents and comment
/// text serialize to byte-identical JSON.
pub proof fn lemma_json_deterministic(a: Response, b: Response)
    requires
        a.status == b.status,
        a.tc == b.tc,
        a.rd == b.rd,
        a.ra == b.ra,
        a.ad == b.ad,
        a.cd == b.cd,
        a.questions@.len() == b.questions@.len(),
        forall|i: int|
            0 <= i < a.questions@.len() ==> (#[trigger] a.questions@[i]).name@
                == b.questions@[i].name@ && a.questions@[i].rtype == b.questions@[i].rtype,
        a.answers@.len() == b.answers@.len(),
        forall|i: int|
            0 <= i < a.answers@.len() ==> (#[trigger] a.answers@[i]).name@ == b.answers@[i].name@
                && a.answers@[i].rtype == b.answers@[i].rtype && a.answers@[i].ttl
                == b.answers@[i].ttl && a.answers@[i].data@ == b.answers@[i].data@,
        match (a.comment, b.comment) {
            (Option::Some(x), Option::Some(y)) => x@ == y@,
            (Option::None, Option::None) => true,
            _ => false,
        },
    ensures
        json_of_response(a) == json_of_response(b),
{
    lemma_questions_items_congruent(a.questions@, b.questions@);
    lemma_answers_items_congruent(a.answers@, b.answers@);
}

} // verus!
