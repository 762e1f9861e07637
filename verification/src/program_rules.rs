//! Validation of response programs: every operation is typed, bounded and
//! free of private static text before it may run.
use vstd::prelude::*;
use crate::text::{utf8, str_eq, byte_len};
use crate::scan::{
    first_error, lemma_first_error_at, strictly_increasing, increasing_u64,
    strictly_increasing_text, strings_increasing, texts,
};
use crate::static_text::{safe_static_text, safe_collection_renderer};
use crate::contracts::AtomValueType;
use crate::selector_rules::{
    is_identifier, is_identifier_text, spec_validate_selector, validate_selector,
    spec_selector_value_type, selector_value_type, spec_collection_selector_type,
    collection_selector_type,
};
use crate::program::{
    ResponseArgument, ResponseRenderSegment, CollectionOutputRenderer, CollectionProgramStep,
    CustomToolResultProjection, ResponseProgram, ResponseOperation, ResponseConsensusVariant,
    ResponseAdapterWaveConsensus, ResponseAdapterWaveRoute, RESPONSE_PROGRAM_SCHEMA,
};

verus! {

// ---------------------------------------------------------------- phrases and identifiers

/// `Ok` when the text is an identifier, else the given reason.
pub open spec fn spec_validate_identifier(value: Seq<char>, reason: &'static str) -> Result<(), &'static str> {
    if is_identifier(utf8(value)) { Ok(()) } else { Err(reason) }
}

pub fn validate_identifier(value: &str, reason: &'static str) -> (r: Result<(), &'static str>)
    ensures
        r == spec_validate_identifier(value@, reason),
{
    if is_identifier_text(value) { Ok(()) } else { Err(reason) }
}

/// A list of phrases must be non-empty and hold no empty phrase.
pub open spec fn spec_validate_phrases(values: Seq<String>, empty_reason: &'static str) -> Result<(), &'static str> {
    if values.len() == 0 {
        Err(empty_reason)
    } else if exists|i: int| 0 <= i < values.len() && #[trigger] values[i]@.len() == 0 {
        Err("empty_program_phrase")
    } else {
        Ok(())
    }
}

/// Some string is empty.
pub fn any_empty(values: &[String]) -> (r: bool)
    ensures
        r == exists|i: int| 0 <= i < values@.len() && #[trigger] values@[i]@.len() == 0,
{
    let mut i: usize = 0;
    while i < values.len()
        invariant
            i <= values@.len(),
            forall|k: int| 0 <= k < i ==> #[trigger] values@[k]@.len() != 0,
        decreases values@.len() - i,
    {
        if values[i].as_str().is_empty() {
            return true;
        }
        i = i + 1;
    }
    false
}

pub fn validate_phrases(values: &[String], empty_reason: &'static str) -> (r: Result<(), &'static str>)
    ensures
        r == spec_validate_phrases(values@, empty_reason),
{
    if values.len() == 0 {
        return Err(empty_reason);
    }
    if any_empty(values) {
        return Err("empty_program_phrase");
    }
    Ok(())
}

/// The completion state of a projection is `pending` or `completed`.
pub open spec fn known_completion_state(s: Seq<char>) -> bool {
    s == "pending"@ || s == "completed"@
}

pub fn is_known_completion_state(s: &str) -> (r: bool)
    ensures
        r == known_completion_state(s@),
{
    str_eq(s, "pending") || str_eq(s, "completed")
}

// ---------------------------------------------------------------- arguments

pub open spec fn argument_name(a: ResponseArgument) -> Seq<char> {
    match a {
        ResponseArgument::Role { name, .. } => name@,
        ResponseArgument::Integer { name, .. } => name@,
        ResponseArgument::String { name, .. } => name@,
        ResponseArgument::Boolean { name, .. } => name@,
    }
}

/// A literal string argument holds at most 1024 bytes and no NUL byte.
pub open spec fn string_argument_refused(a: ResponseArgument) -> bool {
    match a {
        ResponseArgument::String { value, .. } =>
            utf8(value@).len() > 1024 || utf8(value@).contains(0u8),
        _ => false,
    }
}

/// The error of the argument at `i`, given the arguments before it.
pub open spec fn argument_error(args: Seq<ResponseArgument>, i: int) -> Option<&'static str> {
    if !is_identifier(utf8(argument_name(args[i]))) {
        Some("invalid_argument_name")
    } else if exists|j: int| 0 <= j < i && #[trigger] argument_name(args[j]) == argument_name(args[i]) {
        Some("duplicate_argument_name")
    } else if string_argument_refused(args[i]) {
        Some("invalid_string_argument")
    } else {
        None
    }
}

pub open spec fn argument_errors(args: Seq<ResponseArgument>) -> spec_fn(int) -> Option<&'static str> {
    |i: int| argument_error(args, i)
}

/// The number of role arguments.
pub open spec fn role_count(args: Seq<ResponseArgument>) -> nat
    decreases args.len(),
{
    if args.len() == 0 {
        0
    } else {
        role_count(args.drop_last()) + if args.last() is Role { 1nat } else { 0nat }
    }
}

/// What validating the arguments of a call gives.
pub open spec fn spec_validate_arguments(args: Seq<ResponseArgument>) -> Result<(), &'static str> {
    if args.len() == 0 || args.len() > 16 {
        Err("invalid_function_arguments")
    } else {
        match first_error(argument_errors(args), args.len() as int) {
            Some(e) => Err(e),
            None => if role_count(args) != 1 { Err("invalid_role_argument_count") } else { Ok(()) },
        }
    }
}

fn argument_name_of(a: &ResponseArgument) -> (r: &String)
    ensures
        r@ == argument_name(*a),
{
    match a {
        ResponseArgument::Role { name, .. } => name,
        ResponseArgument::Integer { name, .. } => name,
        ResponseArgument::String { name, .. } => name,
        ResponseArgument::Boolean { name, .. } => name,
    }
}

fn has_nul(b: &[u8]) -> (r: bool)
    ensures
        r == b@.contains(0u8),
{
    let mut i: usize = 0;
    while i < b.len()
        invariant
            i <= b@.len(),
            forall|k: int| 0 <= k < i ==> b@[k] != 0u8,
        decreases b@.len() - i,
    {
        if b[i] == 0 {
            assert(b@[i as int] == 0u8);
            return true;
        }
        i = i + 1;
    }
    false
}

fn string_argument_refused_exec(a: &ResponseArgument) -> (r: bool)
    ensures
        r == string_argument_refused(*a),
{
    match a {
        ResponseArgument::String { value, .. } => byte_len(value.as_str()) > 1024 || has_nul(value.as_str().as_bytes()),
        _ => false,
    }
}

fn seen_name(args: &[ResponseArgument], i: usize) -> (r: bool)
    requires
        i < args@.len(),
    ensures
        r == exists|j: int| 0 <= j < i && #[trigger] argument_name(args@[j]) == argument_name(args@[i as int]),
{
    let name = argument_name_of(&args[i]);
    let mut j: usize = 0;
    while j < i
        invariant
            i < args@.len(),
            j <= i,
            name@ == argument_name(args@[i as int]),
            forall|k: int| 0 <= k < j ==> #[trigger] argument_name(args@[k]) != argument_name(args@[i as int]),
        decreases i - j,
    {
        if str_eq(argument_name_of(&args[j]).as_str(), name.as_str()) {
            return true;
        }
        j = j + 1;
    }
    false
}

/// Checks the arguments of a function or custom tool call.
pub fn validate_arguments(args: &[ResponseArgument]) -> (r: Result<(), &'static str>)
    ensures
        r == spec_validate_arguments(args@),
{
    if args.len() == 0 || args.len() > 16 {
        return Err("invalid_function_arguments");
    }
    let ghost f = argument_errors(args@);
    let mut roles: usize = 0;
    let mut i: usize = 0;
    while i < args.len()
        invariant
            i <= args@.len(),
            args@.len() <= 16,
            f == argument_errors(args@),
            first_error(f, i as int) is None,
            roles == role_count(args@.take(i as int)),
            roles <= i,
        decreases args@.len() - i,
    {
        let name = argument_name_of(&args[i]);
        let err: Option<&'static str> = if !is_identifier_text(name.as_str()) {
            Some("invalid_argument_name")
        } else if seen_name(args, i) {
            Some("duplicate_argument_name")
        } else if string_argument_refused_exec(&args[i]) {
            Some("invalid_string_argument")
        } else {
            None
        };
        assert(err == f(i as int));
        if let Some(e) = err {
            proof {
                lemma_first_error_at(f, i as int, args@.len() as int);
            }
            return Err(e);
        }
        assert(args@.take(i + 1).drop_last() =~= args@.take(i as int));
        if let ResponseArgument::Role { .. } = &args[i] {
            roles = roles + 1;
        }
        i = i + 1;
    }
    assert(args@.take(args@.len() as int) =~= args@);
    if roles != 1 {
        return Err("invalid_role_argument_count");
    }
    Ok(())
}

// ---------------------------------------------------------------- render sequences

/// The error of the segment at `i`: an empty static text, two static
/// texts in a row, a refused selector or a selector of a collection.
pub open spec fn segment_error(segs: Seq<ResponseRenderSegment>, i: int) -> Option<&'static str> {
    match segs[i] {
        ResponseRenderSegment::Static { text } => {
            if text@.len() == 0 || (i > 0 && segs[i - 1] is Static) {
                Some("invalid_render_sequence_static_segment")
            } else {
                None
            }
        },
        ResponseRenderSegment::Primary => None,
        ResponseRenderSegment::Selected { selector, .. } => {
            match spec_validate_selector(selector) {
                Err(e) => Some(e),
                Ok(_) => if spec_selector_value_type(selector) == AtomValueType::Collection {
                    Some("render_sequence_selector_non_scalar")
                } else {
                    None
                },
            }
        },
    }
}

pub open spec fn segment_errors(segs: Seq<ResponseRenderSegment>) -> spec_fn(int) -> Option<&'static str> {
    |i: int| segment_error(segs, i)
}

/// The number of dynamic (primary or selected) segments.
pub open spec fn dynamic_count(segs: Seq<ResponseRenderSegment>) -> nat
    decreases segs.len(),
{
    if segs.len() == 0 {
        0
    } else {
        dynamic_count(segs.drop_last()) + if segs.last() is Static { 0nat } else { 1nat }
    }
}

/// The static texts of the segments, concatenated in order.
pub open spec fn static_text_of(segs: Seq<ResponseRenderSegment>) -> Seq<char>
    decreases segs.len(),
{
    if segs.len() == 0 {
        Seq::empty()
    } else {
        static_text_of(segs.drop_last()) + match segs.last() {
            ResponseRenderSegment::Static { text } => text@,
            _ => Seq::empty(),
        }
    }
}

/// What validating a render sequence gives.
pub open spec fn spec_validate_render_sequence(segs: Seq<ResponseRenderSegment>) -> Result<(), &'static str> {
    if segs.len() < 1 || segs.len() > 64 {
        Err("invalid_render_sequence_length")
    } else if dynamic_count(segs) == 0 || dynamic_count(segs) > 64 {
        Err("invalid_render_sequence_dynamic_segments")
    } else {
        match first_error(segment_errors(segs), segs.len() as int) {
            Some(e) => Err(e),
            None => if safe_static_text(static_text_of(segs), Seq::empty()) {
                Ok(())
            } else {
                Err("unsafe_render_sequence_static_text")
            },
        }
    }
}

fn count_dynamic(segs: &[ResponseRenderSegment]) -> (r: usize)
    requires
        segs@.len() <= 64,
    ensures
        r == dynamic_count(segs@),
        r <= segs@.len(),
{
    let mut n: usize = 0;
    let mut i: usize = 0;
    while i < segs.len()
        invariant
            i <= segs@.len(),
            segs@.len() <= 64,
            n == dynamic_count(segs@.take(i as int)),
            n <= i,
        decreases segs@.len() - i,
    {
        assert(segs@.take(i + 1).drop_last() =~= segs@.take(i as int));
        match &segs[i] {
            ResponseRenderSegment::Static { .. } => {},
            _ => { n = n + 1; },
        }
        i = i + 1;
    }
    assert(segs@.take(segs@.len() as int) =~= segs@);
    n
}

/// Checks a render sequence: bounded length, at least one dynamic segment,
/// well-formed segments, and safe static text.
#[verifier::loop_isolation(false)]
pub fn validate_render_sequence(segs: &[ResponseRenderSegment]) -> (r: Result<(), &'static str>)
    ensures
        r == spec_validate_render_sequence(segs@),
{
    if segs.len() < 1 || segs.len() > 64 {
        return Err("invalid_render_sequence_length");
    }
    let dynamic = count_dynamic(segs);
    if dynamic == 0 || dynamic > 64 {
        return Err("invalid_render_sequence_dynamic_segments");
    }
    let ghost f = segment_errors(segs@);
    let mut static_text = String::new();
    let mut previous_static = false;
    let mut i: usize = 0;
    while i < segs.len()
        invariant
            i <= segs@.len(),
            f == segment_errors(segs@),
            first_error(f, i as int) is None,
            static_text@ == static_text_of(segs@.take(i as int)),
            previous_static == (i > 0 && segs@[i - 1] is Static),
        decreases segs@.len() - i,
    {
        assert(segs@.take(i + 1).drop_last() =~= segs@.take(i as int));
        match &segs[i] {
            ResponseRenderSegment::Static { text } => {
                if text.as_str().is_empty() || previous_static {
                    assert(f(i as int) == Some("invalid_render_sequence_static_segment"));
                    proof {
                        lemma_first_error_at(f, i as int, segs@.len() as int);
                    }
                    return Err("invalid_render_sequence_static_segment");
                }
                static_text.append(text.as_str());
                previous_static = true;
            },
            ResponseRenderSegment::Primary => {
                previous_static = false;
            },
            ResponseRenderSegment::Selected { selector, .. } => {
                match validate_selector(selector) {
                    Err(e) => {
                        assert(f(i as int) == Some(e));
                        proof {
                            lemma_first_error_at(f, i as int, segs@.len() as int);
                        }
                        return Err(e);
                    },
                    Ok(_) => {},
                }
                if selector_value_type(selector) == AtomValueType::Collection {
                    assert(f(i as int) == Some("render_sequence_selector_non_scalar"));
                    proof {
                        lemma_first_error_at(f, i as int, segs@.len() as int);
                    }
                    return Err("render_sequence_selector_non_scalar");
                }
                previous_static = false;
            },
        }
        assert(f(i as int) is None);
        assert(static_text@ == static_text_of(segs@.take(i + 1)));
        i = i + 1;
    }
    assert(segs@.take(segs@.len() as int) =~= segs@);
    proof {
        reveal_strlit("");
    }
    if !safe_collection_renderer(static_text.as_str(), "") {
        return Err("unsafe_render_sequence_static_text");
    }
    Ok(())
}

/// What checking a renderer gives; a refused template reports `template_error`.
pub open spec fn spec_check_renderer(r: CollectionOutputRenderer, template_error: &'static str) -> Result<(), &'static str> {
    match r {
        CollectionOutputRenderer::Direct => Ok(()),
        CollectionOutputRenderer::RenderTemplate { prefix, suffix } => {
            if safe_static_text(prefix@, suffix@) { Ok(()) } else { Err(template_error) }
        },
        CollectionOutputRenderer::RenderSequence { segments } => spec_validate_render_sequence(segments@),
        CollectionOutputRenderer::RequestTemplate { .. } => Ok(()),
    }
}

pub fn check_renderer(r: &CollectionOutputRenderer, template_error: &'static str) -> (res: Result<(), &'static str>)
    ensures
        res == spec_check_renderer(*r, template_error),
{
    match r {
        CollectionOutputRenderer::Direct => Ok(()),
        CollectionOutputRenderer::RenderTemplate { prefix, suffix } => {
            if safe_collection_renderer(prefix.as_str(), suffix.as_str()) { Ok(()) } else { Err(template_error) }
        },
        CollectionOutputRenderer::RenderSequence { segments } => validate_render_sequence(segments.as_slice()),
        CollectionOutputRenderer::RequestTemplate { .. } => Ok(()),
    }
}

// ---------------------------------------------------------------- collections

/// The number of explicit source steps.
pub open spec fn source_count(steps: Seq<CollectionProgramStep>) -> nat
    decreases steps.len(),
{
    if steps.len() == 0 {
        0
    } else {
        source_count(steps.drop_last()) + if steps.last() is SelectTurnOutput { 1nat } else { 0nat }
    }
}

/// Non-empty, at most eight steps besides a leading source step, and at
/// most one source step, which then leads.
pub open spec fn collection_length_ok(steps: Seq<CollectionProgramStep>) -> bool {
    let explicit = steps.len() > 0 && steps[0] is SelectTurnOutput;
    let sources = source_count(steps);
    !(steps.len() == 0
        || steps.len() - (if explicit { 1int } else { 0int }) > 8
        || sources > 1
        || (sources == 1 && !explicit))
}

/// The error of the step at `i`.
pub open spec fn step_error(steps: Seq<CollectionProgramStep>, i: int) -> Option<&'static str> {
    match steps[i] {
        CollectionProgramStep::SelectTurnOutput { output_ordinal } => {
            if 1 <= output_ordinal <= 16 { None } else { Some("invalid_collection_output_ordinal") }
        },
        CollectionProgramStep::SelectField { field } => {
            if is_identifier(utf8(field@)) { None } else { Some("invalid_collection_field") }
        },
        CollectionProgramStep::ProjectField { field } => {
            if is_identifier(utf8(field@)) { None } else { Some("invalid_collection_field") }
        },
        CollectionProgramStep::FilterFieldEquals { field, .. } => {
            if is_identifier(utf8(field@)) { None } else { Some("invalid_collection_field") }
        },
        CollectionProgramStep::FilterUniqueFieldEqualsSelectedValue { selector, value_type } => {
            match spec_validate_selector(selector) {
                Err(e) => Some(e),
                Ok(_) => if spec_collection_selector_type(selector) == Some(value_type) {
                    None
                } else {
                    Some("collection_filter_selector_type")
                },
            }
        },
        _ => None,
    }
}

pub open spec fn step_errors(steps: Seq<CollectionProgramStep>) -> spec_fn(int) -> Option<&'static str> {
    |i: int| step_error(steps, i)
}

/// What validating a collection program gives.
pub open spec fn spec_validate_collection(
    steps: Seq<CollectionProgramStep>,
    renderer: CollectionOutputRenderer,
    completion_state: Seq<char>,
    max_items: usize,
) -> Result<(), &'static str> {
    if !collection_length_ok(steps) {
        Err("invalid_collection_program_length")
    } else if max_items == 0 || max_items > 4096 {
        Err("invalid_collection_item_budget")
    } else if !known_completion_state(completion_state) {
        Err("invalid_collection_completion_state")
    } else {
        match spec_check_renderer(renderer, "invalid_collection_renderer") {
            Err(e) => Err(e),
            Ok(_) => match first_error(step_errors(steps), steps.len() as int) {
                Some(e) => Err(e),
                None => Ok(()),
            },
        }
    }
}

fn count_sources(steps: &[CollectionProgramStep]) -> (r: usize)
    ensures
        r == source_count(steps@),
        r <= steps@.len(),
{
    let mut n: usize = 0;
    let mut i: usize = 0;
    while i < steps.len()
        invariant
            i <= steps@.len(),
            n == source_count(steps@.take(i as int)),
            n <= i,
        decreases steps@.len() - i,
    {
        assert(steps@.take(i + 1).drop_last() =~= steps@.take(i as int));
        if let CollectionProgramStep::SelectTurnOutput { .. } = &steps[i] {
            n = n + 1;
        }
        i = i + 1;
    }
    assert(steps@.take(steps@.len() as int) =~= steps@);
    n
}

fn step_error_exec(step: &CollectionProgramStep, Ghost(steps): Ghost<Seq<CollectionProgramStep>>, Ghost(i): Ghost<int>) -> (r: Option<&'static str>)
    requires
        0 <= i < steps.len(),
        steps[i] == *step,
    ensures
        r == step_error(steps, i),
{
    match step {
        CollectionProgramStep::SelectTurnOutput { output_ordinal } => {
            if 1 <= *output_ordinal && *output_ordinal <= 16 { None } else { Some("invalid_collection_output_ordinal") }
        },
        CollectionProgramStep::SelectField { field } => {
            if is_identifier_text(field.as_str()) { None } else { Some("invalid_collection_field") }
        },
        CollectionProgramStep::ProjectField { field } => {
            if is_identifier_text(field.as_str()) { None } else { Some("invalid_collection_field") }
        },
        CollectionProgramStep::FilterFieldEquals { field, .. } => {
            if is_identifier_text(field.as_str()) { None } else { Some("invalid_collection_field") }
        },
        CollectionProgramStep::FilterUniqueFieldEqualsSelectedValue { selector, value_type } => {
            match validate_selector(selector) {
                Err(e) => Some(e),
                Ok(_) => match collection_selector_type(selector) {
                    Some(t) => if t == *value_type { None } else { Some("collection_filter_selector_type") },
                    None => Some("collection_filter_selector_type"),
                },
            }
        },
        _ => None,
    }
}

/// Checks a collection program: its length and source, item budget,
/// completion state, renderer and each step.
#[verifier::loop_isolation(false)]
pub fn validate_collection(
    steps: &[CollectionProgramStep],
    renderer: &CollectionOutputRenderer,
    completion_state: &str,
    max_items: usize,
) -> (r: Result<(), &'static str>)
    ensures
        r == spec_validate_collection(steps@, *renderer, completion_state@, max_items),
{
    let sources = count_sources(steps);
    let explicit = steps.len() > 0 && match &steps[0] {
        CollectionProgramStep::SelectTurnOutput { .. } => true,
        _ => false,
    };
    let rest = if explicit { steps.len() - 1 } else { steps.len() };
    if steps.len() == 0 || rest > 8 || sources > 1 || (sources == 1 && !explicit) {
        return Err("invalid_collection_program_length");
    }
    if max_items == 0 || max_items > 4096 {
        return Err("invalid_collection_item_budget");
    }
    if !is_known_completion_state(completion_state) {
        return Err("invalid_collection_completion_state");
    }
    match check_renderer(renderer, "invalid_collection_renderer") {
        Err(e) => { return Err(e); },
        Ok(_) => {},
    }
    let ghost f = step_errors(steps@);
    let mut i: usize = 0;
    while i < steps.len()
        invariant
            i <= steps@.len(),
            f == step_errors(steps@),
            first_error(f, i as int) is None,
        decreases steps@.len() - i,
    {
        let e = step_error_exec(&steps[i], Ghost(steps@), Ghost(i as int));
        assert(e == f(i as int));
        if let Some(e) = e {
            proof {
                lemma_first_error_at(f, i as int, steps@.len() as int);
            }
            return Err(e);
        }
        i = i + 1;
    }
    Ok(())
}

// ---------------------------------------------------------------- custom tool projections

/// A continuation projection names two identifiers and a short printable prefix.
pub open spec fn spec_validate_projection(p: CustomToolResultProjection) -> Result<(), &'static str> {
    match p {
        CustomToolResultProjection::OutputAndContinuation { output_field, continuation_field, continuation_prefix } => {
            if !is_identifier(utf8(output_field@)) {
                Err("invalid_projection_output")
            } else if !is_identifier(utf8(continuation_field@)) {
                Err("invalid_projection_continuation")
            } else if utf8(continuation_prefix@).len() == 0 || utf8(continuation_prefix@).len() > 128
                || crate::selector_rules::has_ascii_control(utf8(continuation_prefix@)) {
                Err("invalid_projection_prefix")
            } else {
                Ok(())
            }
        },
        _ => Ok(()),
    }
}

pub fn validate_projection(p: &CustomToolResultProjection) -> (r: Result<(), &'static str>)
    ensures
        r == spec_validate_projection(*p),
{
    match p {
        CustomToolResultProjection::OutputAndContinuation { output_field, continuation_field, continuation_prefix } => {
            if !is_identifier_text(output_field.as_str()) {
                return Err("invalid_projection_output");
            }
            if !is_identifier_text(continuation_field.as_str()) {
                return Err("invalid_projection_continuation");
            }
            let n = byte_len(continuation_prefix.as_str());
            if n == 0 || n > 128 || crate::selector_rules::any_ascii_control(continuation_prefix.as_str().as_bytes()) {
                return Err("invalid_projection_prefix");
            }
            Ok(())
        },
        _ => Ok(()),
    }
}

// ---------------------------------------------------------------- consensus guards

/// A SHA-256 digest in hexadecimal, either case.
pub open spec fn is_hex_digest(b: Seq<u8>) -> bool {
    b.len() == 64 && forall|i: int| 0 <= i < b.len() ==> #[trigger] crate::text::is_hex_byte(b[i])
}

/// At most 16 layout digests, strictly increasing, each 64 hex digits.
pub open spec fn layout_guards_ok(layouts: Seq<String>) -> bool {
    layouts.len() <= 16
    && strictly_increasing_text(texts(layouts))
    && forall|i: int| 0 <= i < layouts.len() ==> #[trigger] is_hex_digest(utf8(layouts[i]@))
}

/// At most 8 request atoms, strictly increasing.
pub open spec fn request_guards_ok(ids: Seq<u64>) -> bool {
    ids.len() <= 8 && strictly_increasing(ids)
}

fn hex_digest_exec(b: &[u8]) -> (r: bool)
    ensures
        r == is_hex_digest(b@),
{
    if b.len() != 64 {
        return false;
    }
    let mut i: usize = 0;
    while i < b.len()
        invariant
            i <= b@.len(),
            forall|k: int| 0 <= k < i ==> #[trigger] crate::text::is_hex_byte(b@[k]),
        decreases b@.len() - i,
    {
        if !crate::text::hex_byte(b[i]) {
            return false;
        }
        i = i + 1;
    }
    true
}

#[verifier::loop_isolation(false)]
pub fn check_layout_guards(layouts: &[String]) -> (r: bool)
    ensures
        r == layout_guards_ok(layouts@),
{
    if layouts.len() > 16 || !strings_increasing(layouts) {
        return false;
    }
    let mut i: usize = 0;
    while i < layouts.len()
        invariant
            i <= layouts@.len(),
            forall|k: int| 0 <= k < i ==> #[trigger] is_hex_digest(utf8(layouts@[k]@)),
        decreases layouts@.len() - i,
    {
        if !hex_digest_exec(layouts[i].as_str().as_bytes()) {
            assert(!is_hex_digest(utf8(layouts@[i as int]@)));
            return false;
        }
        i = i + 1;
    }
    true
}

pub fn check_request_guards(ids: &[u64]) -> (r: bool)
    ensures
        r == request_guards_ok(ids@),
{
    ids.len() <= 8 && increasing_u64(ids)
}

// ---------------------------------------------------------------- adapter waves

/// The subcenter at `k` has one coordinate pair per cell.
pub open spec fn subcenter_fits(r: ResponseAdapterWaveRoute, k: int) -> bool {
    r.subcenters@[k].center_delta_micro@.len() == 2 * (r.cells as int)
}

/// A route of the adapter wave: 1 to 32 cells, a center of one pair per
/// cell, bounded and strictly increasing anchors and fingerprints.
pub open spec fn route_ok(r: ResponseAdapterWaveRoute) -> bool {
    &&& 1 <= r.cells <= 32
    &&& r.center_delta_micro@.len() == 2 * (r.cells as int)
    &&& r.subcenters@.len() <= 16
    &&& r.anchor_atom_ids@.len() <= 32
    &&& r.positive_fingerprint_ids@.len() <= 64
    &&& strictly_increasing(r.anchor_atom_ids@)
    &&& strictly_increasing(r.positive_fingerprint_ids@)
    &&& forall|k: int| 0 <= k < r.subcenters@.len() ==> #[trigger] subcenter_fits(r, k)
}

/// What checking the adapter wave of a consensus over `variants` variants gives.
pub open spec fn spec_check_adapter_wave(w: Option<ResponseAdapterWaveConsensus>, variants: int) -> Result<(), &'static str> {
    match w {
        None => Ok(()),
        Some(w) => {
            if w.routes@.len() != variants || w.exact_budget < 1 || w.exact_budget > 16
                || w.exact_budget > variants {
                Err("invalid_adapter_wave_shape")
            } else if forall|i: int| 0 <= i < w.routes@.len() ==> #[trigger] route_ok(w.routes@[i]) {
                Ok(())
            } else {
                Err("invalid_adapter_wave_route")
            }
        },
    }
}

fn route_ok_exec(r: &ResponseAdapterWaveRoute) -> (ok: bool)
    ensures
        ok == route_ok(*r),
{
    let cells = r.cells as usize;
    if cells == 0 || cells > 32 || r.center_delta_micro.len() != cells * 2 || r.subcenters.len() > 16
        || r.anchor_atom_ids.len() > 32 || r.positive_fingerprint_ids.len() > 64
        || !increasing_u64(r.anchor_atom_ids.as_slice())
        || !increasing_u64(r.positive_fingerprint_ids.as_slice()) {
        return false;
    }
    let mut k: usize = 0;
    while k < r.subcenters.len()
        invariant
            k <= r.subcenters@.len(),
            cells == r.cells as usize,
            1 <= cells <= 32,
            forall|j: int| 0 <= j < k ==> #[trigger] subcenter_fits(*r, j),
        decreases r.subcenters@.len() - k,
    {
        if r.subcenters[k].center_delta_micro.len() != cells * 2 {
            assert(!subcenter_fits(*r, k as int));
            return false;
        }
        k = k + 1;
    }
    true
}

#[verifier::loop_isolation(false)]
pub fn check_adapter_wave(w: &Option<ResponseAdapterWaveConsensus>, variants: usize) -> (r: Result<(), &'static str>)
    ensures
        r == spec_check_adapter_wave(*w, variants as int),
{
    match w {
        None => Ok(()),
        Some(w) => {
            if w.routes.len() != variants || w.exact_budget < 1 || w.exact_budget > 16
                || w.exact_budget as usize > variants {
                return Err("invalid_adapter_wave_shape");
            }
            let mut i: usize = 0;
            while i < w.routes.len()
                invariant
                    i <= w.routes@.len(),
                    forall|j: int| 0 <= j < i ==> #[trigger] route_ok(w.routes@[j]),
                decreases w.routes@.len() - i,
            {
                if !route_ok_exec(&w.routes[i]) {
                    assert(!route_ok(w.routes@[i as int]));
                    return Err("invalid_adapter_wave_route");
                }
                i = i + 1;
            }
            Ok(())
        },
    }
}

// ---------------------------------------------------------------- programs

/// The kind that every variant of a consensus must share: selected value,
/// status, collection, or call.
pub open spec fn consensus_kind(p: ResponseProgram) -> Option<u8> {
    match p.operation {
        ResponseOperation::ProjectSelectedValue { .. } => Some(0u8),
        ResponseOperation::ProjectStatus { .. } => Some(1u8),
        ResponseOperation::ComposeCollection { .. } => Some(2u8),
        ResponseOperation::FunctionCallFromRoles { .. } => Some(3u8),
        ResponseOperation::CustomToolCallFromRoles { .. } => Some(3u8),
        _ => None,
    }
}

pub fn consensus_variant_kind(p: &ResponseProgram) -> (r: Option<u8>)
    ensures
        r == consensus_kind(*p),
{
    match &p.operation {
        ResponseOperation::ProjectSelectedValue { .. } => Some(0u8),
        ResponseOperation::ProjectStatus { .. } => Some(1u8),
        ResponseOperation::ComposeCollection { .. } => Some(2u8),
        ResponseOperation::FunctionCallFromRoles { .. } => Some(3u8),
        ResponseOperation::CustomToolCallFromRoles { .. } => Some(3u8),
        _ => None,
    }
}

/// A wait program calls `wait`, yields 250 ms to 30 s, and asks 1 to 20000 tokens.
pub open spec fn wait_ok(function_name: Seq<char>, yield_time_ms: u64, max_tokens: u64) -> bool {
    function_name == "wait"@ && 250 <= yield_time_ms <= 30_000 && max_tokens != 0 && max_tokens <= 20_000
}

/// What validating an operation other than a consensus gives.
pub open spec fn spec_validate_operation(op: ResponseOperation) -> Result<(), &'static str> {
    match op {
        ResponseOperation::UniqueConsensus { .. } => Ok(()),
        ResponseOperation::AdvancePlan { function_name } =>
            spec_validate_identifier(function_name@, "invalid_plan_function_name"),
        ResponseOperation::FunctionCallFromRoles { function_name, selector, arguments } => {
            if !is_identifier(utf8(function_name@)) {
                Err("invalid_function_name")
            } else {
                match spec_validate_selector(selector) {
                    Err(e) => Err(e),
                    Ok(_) => spec_validate_arguments(arguments@),
                }
            }
        },
        ResponseOperation::CustomToolCallFromRoles { custom_tool_name, inner_tool_name, selector, arguments, projection } => {
            if !is_identifier(utf8(custom_tool_name@)) {
                Err("invalid_custom_tool_name")
            } else if !is_identifier(utf8(inner_tool_name@)) {
                Err("invalid_inner_tool_name")
            } else {
                match spec_validate_selector(selector) {
                    Err(e) => Err(e),
                    Ok(_) => match spec_validate_arguments(arguments@) {
                        Err(e) => Err(e),
                        Ok(_) => spec_validate_projection(projection),
                    },
                }
            }
        },
        ResponseOperation::ProjectSelectedValue { selector, renderer, completion_state, .. } => {
            match spec_validate_selector(selector) {
                Err(e) => Err(e),
                Ok(_) => if !known_completion_state(completion_state@) {
                    Err("invalid_projection_completion_state")
                } else {
                    spec_check_renderer(renderer, "invalid_value_renderer")
                },
            }
        },
        ResponseOperation::ProjectStatus { selector, renderer, completion_state, .. } => {
            match spec_validate_selector(selector) {
                Err(e) => Err(e),
                Ok(_) => if spec_selector_value_type(selector) != AtomValueType::Integer {
                    Err("status_selector_must_be_integer")
                } else if !known_completion_state(completion_state@) {
                    Err("invalid_status_completion_state")
                } else {
                    spec_check_renderer(renderer, "invalid_status_renderer")
                },
            }
        },
        ResponseOperation::ComposeCollection { steps, renderer, completion_state, max_items, .. } =>
            spec_validate_collection(steps@, renderer, completion_state@, max_items),
        ResponseOperation::CopyAfterPrefix { prefixes, .. } =>
            spec_validate_phrases(prefixes@, "empty_prefixes"),
        ResponseOperation::TestResultSummary { required_intent_phrases, forbidden_intent_terms } => {
            match spec_validate_phrases(required_intent_phrases@, "empty_required_intents") {
                Err(e) => Err(e),
                Ok(_) => if exists|i: int| 0 <= i < forbidden_intent_terms@.len()
                    && #[trigger] forbidden_intent_terms@[i]@.len() == 0 {
                    Err("empty_forbidden_intent")
                } else {
                    Ok(())
                },
            }
        },
        ResponseOperation::WaitOnYieldedCell { function_name, yield_time_ms, max_tokens } => {
            if wait_ok(function_name@, yield_time_ms, max_tokens) { Ok(()) } else { Err("invalid_wait_program") }
        },
        ResponseOperation::WaitOnAnyYieldedCell { function_name, yield_time_ms, max_tokens } => {
            if wait_ok(function_name@, yield_time_ms, max_tokens) { Ok(()) } else { Err("invalid_wait_program") }
        },
        ResponseOperation::WaitOnYieldedSurfaces { surfaces, function_name, yield_time_ms, max_tokens } => {
            match spec_validate_phrases(surfaces@, "empty_wait_surfaces") {
                Err(e) => Err(e),
                Ok(_) => if wait_ok(function_name@, yield_time_ms, max_tokens) { Ok(()) } else { Err("invalid_wait_program") },
            }
        },
    }
}

/// What validating a response program gives: the first refused bound, in
/// the order of the checks, or `Ok`.
pub open spec fn spec_validate(p: ResponseProgram) -> Result<(), &'static str>
    decreases p, 0int,
{
    if p.schema@ != RESPONSE_PROGRAM_SCHEMA@ {
        Err("unsupported_program_schema")
    } else if p.max_output_bytes == 0 || p.max_output_bytes > 65_536 {
        Err("invalid_output_budget")
    } else {
        match p.operation {
            ResponseOperation::UniqueConsensus { variants, adapter_wave } => {
                if variants@.len() < 1 || variants@.len() > 64 {
                    Err("invalid_unique_consensus_variant_count")
                } else {
                    match spec_check_adapter_wave(adapter_wave, variants@.len() as int) {
                        Err(e) => Err(e),
                        Ok(_) => match consensus_kind(variants@[0].program) {
                            None => Err("invalid_unique_consensus_variant_kind"),
                            Some(kind) => {
                                proof {
                                    assert(decreases_to!(p => p.operation));
                                    assert(decreases_to!(p.operation => p.operation->variants));
                                    assert(decreases_to!(p.operation->variants => p.operation->variants@));
                                }
                                variants_from(variants@, 0, kind, p.max_output_bytes)
                            },
                        },
                    }
                }
            },
            _ => spec_validate_operation(p.operation),
        }
    }
}

/// The checks of the consensus variants from `i` on, in order.
pub open spec fn variants_from(vs: Seq<ResponseConsensusVariant>, i: int, kind: u8, budget: usize) -> Result<(), &'static str>
    decreases vs, vs.len() - i,
{
    if i < 0 || i >= vs.len() {
        Ok(())
    } else {
        let v = vs[i];
        if consensus_kind(v.program) != Some(kind) {
            Err("mixed_unique_consensus_variant_kinds")
        } else if v.program.max_output_bytes > budget {
            Err("unique_consensus_variant_output_budget")
        } else if !layout_guards_ok(v.allowed_layout_sha256@) {
            Err("invalid_unique_consensus_layout_guards")
        } else if !request_guards_ok(v.required_request_atom_ids@) {
            Err("invalid_unique_consensus_request_guards")
        } else {
            proof {
                assert(decreases_to!(vs => vs[i]));
                assert(decreases_to!(vs[i] => vs[i].program));
            }
            match spec_validate(v.program) {
                Err(e) => Err(e),
                Ok(_) => variants_from(vs, i + 1, kind, budget),
            }
        }
    }
}

fn validate_operation(op: &ResponseOperation) -> (r: Result<(), &'static str>)
    ensures
        r == spec_validate_operation(*op),
{
    match op {
        ResponseOperation::UniqueConsensus { .. } => Ok(()),
        ResponseOperation::AdvancePlan { function_name } =>
            validate_identifier(function_name.as_str(), "invalid_plan_function_name"),
        ResponseOperation::FunctionCallFromRoles { function_name, selector, arguments } => {
            if !is_identifier_text(function_name.as_str()) {
                return Err("invalid_function_name");
            }
            match validate_selector(selector) {
                Err(e) => { return Err(e); },
                Ok(_) => {},
            }
            validate_arguments(arguments.as_slice())
        },
        ResponseOperation::CustomToolCallFromRoles { custom_tool_name, inner_tool_name, selector, arguments, projection } => {
            if !is_identifier_text(custom_tool_name.as_str()) {
                return Err("invalid_custom_tool_name");
            }
            if !is_identifier_text(inner_tool_name.as_str()) {
                return Err("invalid_inner_tool_name");
            }
            match validate_selector(selector) {
                Err(e) => { return Err(e); },
                Ok(_) => {},
            }
            match validate_arguments(arguments.as_slice()) {
                Err(e) => { return Err(e); },
                Ok(_) => {},
            }
            validate_projection(projection)
        },
        ResponseOperation::ProjectSelectedValue { selector, renderer, completion_state, .. } => {
            match validate_selector(selector) {
                Err(e) => { return Err(e); },
                Ok(_) => {},
            }
            if !is_known_completion_state(completion_state.as_str()) {
                return Err("invalid_projection_completion_state");
            }
            check_renderer(renderer, "invalid_value_renderer")
        },
        ResponseOperation::ProjectStatus { selector, renderer, completion_state, .. } => {
            match validate_selector(selector) {
                Err(e) => { return Err(e); },
                Ok(_) => {},
            }
            if selector_value_type(selector) != AtomValueType::Integer {
                return Err("status_selector_must_be_integer");
            }
            if !is_known_completion_state(completion_state.as_str()) {
                return Err("invalid_status_completion_state");
            }
            check_renderer(renderer, "invalid_status_renderer")
        },
        ResponseOperation::ComposeCollection { steps, renderer, completion_state, max_items, .. } =>
            validate_collection(steps.as_slice(), renderer, completion_state.as_str(), *max_items),
        ResponseOperation::CopyAfterPrefix { prefixes, .. } =>
            validate_phrases(prefixes.as_slice(), "empty_prefixes"),
        ResponseOperation::TestResultSummary { required_intent_phrases, forbidden_intent_terms } => {
            match validate_phrases(required_intent_phrases.as_slice(), "empty_required_intents") {
                Err(e) => { return Err(e); },
                Ok(_) => {},
            }
            if any_empty(forbidden_intent_terms.as_slice()) {
                return Err("empty_forbidden_intent");
            }
            Ok(())
        },
        ResponseOperation::WaitOnYieldedCell { function_name, yield_time_ms, max_tokens } => {
            if wait_ok_exec(function_name.as_str(), *yield_time_ms, *max_tokens) { Ok(()) } else { Err("invalid_wait_program") }
        },
        ResponseOperation::WaitOnAnyYieldedCell { function_name, yield_time_ms, max_tokens } => {
            if wait_ok_exec(function_name.as_str(), *yield_time_ms, *max_tokens) { Ok(()) } else { Err("invalid_wait_program") }
        },
        ResponseOperation::WaitOnYieldedSurfaces { surfaces, function_name, yield_time_ms, max_tokens } => {
            match validate_phrases(surfaces.as_slice(), "empty_wait_surfaces") {
                Err(e) => { return Err(e); },
                Ok(_) => {},
            }
            if wait_ok_exec(function_name.as_str(), *yield_time_ms, *max_tokens) { Ok(()) } else { Err("invalid_wait_program") }
        },
    }
}

fn wait_ok_exec(function_name: &str, yield_time_ms: u64, max_tokens: u64) -> (r: bool)
    ensures
        r == wait_ok(function_name@, yield_time_ms, max_tokens),
{
    str_eq(function_name, "wait") && 250 <= yield_time_ms && yield_time_ms <= 30_000 && max_tokens != 0
        && max_tokens <= 20_000
}

impl ResponseProgram {
    /// Fails closed on any unsupported schema, unbounded budget, malformed
    /// selector or argument, unknown completion state, unsafe renderer text
    /// or inconsistent consensus; reports the first failing check.
    #[verifier::loop_isolation(false)]
    pub fn validate(&self) -> (r: Result<(), &'static str>)
        ensures
            r == spec_validate(*self),
        decreases self,
    {
        if !str_eq(self.schema.as_str(), RESPONSE_PROGRAM_SCHEMA) {
            return Err("unsupported_program_schema");
        }
        if self.max_output_bytes == 0 || self.max_output_bytes > 65_536 {
            return Err("invalid_output_budget");
        }
        match &self.operation {
            ResponseOperation::UniqueConsensus { variants, adapter_wave } => {
                if variants.len() < 1 || variants.len() > 64 {
                    return Err("invalid_unique_consensus_variant_count");
                }
                match check_adapter_wave(adapter_wave, variants.len()) {
                    Err(e) => { return Err(e); },
                    Ok(_) => {},
                }
                let kind = match consensus_variant_kind(&variants[0].program) {
                    None => { return Err("invalid_unique_consensus_variant_kind"); },
                    Some(k) => k,
                };
                let budget = self.max_output_bytes;
                let mut i: usize = 0;
                while i < variants.len()
                    invariant
                        i <= variants@.len(),
                        variants_from(variants@, 0, kind, budget) == variants_from(variants@, i as int, kind, budget),
                    decreases variants@.len() - i,
                {
                    let v = &variants[i];
                    match consensus_variant_kind(&v.program) {
                        Some(k) => if k != kind { return Err("mixed_unique_consensus_variant_kinds"); },
                        None => { return Err("mixed_unique_consensus_variant_kinds"); },
                    }
                    if v.program.max_output_bytes > budget {
                        return Err("unique_consensus_variant_output_budget");
                    }
                    if !check_layout_guards(v.allowed_layout_sha256.as_slice()) {
                        return Err("invalid_unique_consensus_layout_guards");
                    }
                    if !check_request_guards(v.required_request_atom_ids.as_slice()) {
                        return Err("invalid_unique_consensus_request_guards");
                    }
                    proof {
                        assert(decreases_to!(*self => self.operation));
                        assert(decreases_to!(self.operation => self.operation->variants));
                        assert(decreases_to!(self.operation->variants => variants@));
                        assert(decreases_to!(variants@ => variants@[i as int]));
                        assert(decreases_to!(variants@[i as int] => variants@[i as int].program));
                    }
                    match v.program.validate() {
                        Err(e) => { return Err(e); },
                        Ok(_) => {},
                    }
                    i = i + 1;
                }
                Ok(())
            },
            _ => validate_operation(&self.operation),
        }
    }
}

// ---------------------------------------------------------------- laws

/// A valid program has the current schema and a bounded, non-zero output budget.
pub proof fn lemma_valid_program_is_bounded(p: ResponseProgram)
    requires
        spec_validate(p) is Ok,
    ensures
        p.schema@ == RESPONSE_PROGRAM_SCHEMA@,
        1 <= p.max_output_bytes <= 65_536,
{
}

proof fn lemma_variants_from_ok(vs: Seq<ResponseConsensusVariant>, i: int, kind: u8, budget: usize, j: int)
    requires
        0 <= i <= j < vs.len(),
        variants_from(vs, i, kind, budget) is Ok,
    ensures
        spec_validate(vs[j].program) is Ok,
        consensus_kind(vs[j].program) == Some(kind),
        vs[j].program.max_output_bytes <= budget,
        layout_guards_ok(vs[j].allowed_layout_sha256@),
        request_guards_ok(vs[j].required_request_atom_ids@),
    decreases j - i,
{
    if i < j {
        lemma_variants_from_ok(vs, i + 1, kind, budget, j);
    }
}

/// A valid consensus holds 1 to 64 variants, all valid, all of the first
/// variant's kind, each within the consensus budget and with well-formed
/// layout and request guards.
pub proof fn lemma_valid_consensus_variants(p: ResponseProgram)
    requires
        spec_validate(p) is Ok,
        p.operation is UniqueConsensus,
    ensures
        1 <= p.operation->variants@.len() <= 64,
        consensus_kind(p.operation->variants@[0].program) is Some,
        forall|j: int| 0 <= j < p.operation->variants@.len() ==> {
            let v = #[trigger] p.operation->variants@[j];
            &&& spec_validate(v.program) is Ok
            &&& consensus_kind(v.program) == consensus_kind(p.operation->variants@[0].program)
            &&& v.program.max_output_bytes <= p.max_output_bytes
            &&& layout_guards_ok(v.allowed_layout_sha256@)
            &&& request_guards_ok(v.required_request_atom_ids@)
        },
{
    let vs = p.operation->variants@;
    let kind = consensus_kind(vs[0].program)->0;
    assert forall|j: int| 0 <= j < vs.len() implies {
        let v = #[trigger] vs[j];
        &&& spec_validate(v.program) is Ok
        &&& consensus_kind(v.program) == consensus_kind(vs[0].program)
        &&& v.program.max_output_bytes <= p.max_output_bytes
        &&& layout_guards_ok(v.allowed_layout_sha256@)
        &&& request_guards_ok(v.required_request_atom_ids@)
    } by {
        lemma_variants_from_ok(vs, 0, kind, p.max_output_bytes, j);
    }
}

/// A valid selected-value, status or collection program names a known
/// completion state, and a valid status program reads an integer.
pub proof fn lemma_valid_projection_is_typed(p: ResponseProgram)
    requires
        spec_validate(p) is Ok,
    ensures
        p.operation matches ResponseOperation::ProjectSelectedValue { completion_state, .. }
            ==> known_completion_state(completion_state@),
        p.operation matches ResponseOperation::ProjectStatus { completion_state, selector, .. }
            ==> known_completion_state(completion_state@)
                && spec_selector_value_type(selector) == AtomValueType::Integer,
        p.operation matches ResponseOperation::ComposeCollection { completion_state, max_items, .. }
            ==> known_completion_state(completion_state@) && 1 <= max_items <= 4096,
{
}

} // verus!
