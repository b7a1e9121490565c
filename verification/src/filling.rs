//! Why exchanging text in the default settings writes the values in: each
//! option's placeholder stands in the annotated settings exactly once, so
//! that exchanging it touches that option's assignment and nothing else.

use crate::description::{
    assignment, default_settings, filled, gap, laid_out, laid_out_from, placeholder, substituted,
    tag, written,
};
use crate::settings::{field_at, lemma_fields_distinct, Field, SettingsView, FIELD_COUNT};
use crate::text::{
    contains, decimal, lemma_decimal_canonical, lemma_occurrence_chars, lemma_replaced_single,
    occurs_at,
};
use vstd::prelude::*;

verus! {

/// Whether `text` holds no double quote.
pub open spec fn quote_free(text: Seq<char>) -> bool {
    forall|i: int| 0 <= i < text.len() ==> #[trigger] text[i] != '"'
}

/// The names of the options differ in length, and none holds a double
/// quote, a colon, a comma or a line break.
proof fn lemma_key_shape(field: Field)
    ensures
        field.key().len() == match field {
            Field::Indent => 6int,
            Field::Delimiter => 9int,
            Field::UseReferences => 14int,
            Field::UseSections => 12int,
            Field::UseTabular => 11int,
        },
        forall|t: int|
            0 <= t < field.key().len() ==> {
                let c = #[trigger] field.key()[t];
                c != '"' && c != ':' && c != ',' && c != '\n'
            },
{
    reveal_strlit("indent");
    reveal_strlit("delimiter");
    reveal_strlit("use_references");
    reveal_strlit("use_sections");
    reveal_strlit("use_tabular");
}

/// A tag is a double quote, the option's name, a double quote, a colon and a
/// blank.
proof fn lemma_tag_shape(field: Field)
    ensures
        tag(field).len() == field.key().len() + 4,
        tag(field)[0] == '"',
        forall|t: int|
            1 <= t <= field.key().len() ==> {
                let c = #[trigger] tag(field)[t];
                c == field.key()[t - 1] && c != '"' && c != ':' && c != ',' && c != '\n'
            },
        tag(field)[field.key().len() as int + 1] == '"',
        tag(field)[field.key().len() as int + 2] == ':',
        tag(field)[field.key().len() as int + 3] == ' ',
{
    reveal_strlit("\"");
    reveal_strlit("\": ");
    lemma_key_shape(field);
}

/// No gap holds a double quote, and every gap behind an assignment starts
/// with what ends the line: a comma, or a line break behind the last one.
proof fn lemma_gap_shape(position: int)
    ensures
        quote_free(gap(position)),
        gap(position).len() > 0,
        position >= 1 ==> gap(position)[0] == ',' || gap(position)[0] == '\n',
{
    reveal_strlit(
        "{\n  /// Indentation level for output (0 = no indentation, 1 = compact, 2+ = pretty print)\n  ",
    );
    reveal_strlit(",\n  /// Field delimiter (pipe is default for better token efficiency)\n  ");
    reveal_strlit(",\n  /// Enable $var references to avoid duplication\n  ");
    reveal_strlit(",\n  /// Enable @section organization for objects\n  ");
    reveal_strlit(",\n  /// Enable key:[N]{fields} tabular arrays for uniform data\n  ");
    reveal_strlit("\n}\n");
}

/// How a value is written: the delimiter between two double quotes, every
/// other value without any double quote and not empty.
proof fn lemma_written_shape(settings: SettingsView, field: Field)
    ensures
        field != Field::Delimiter ==> quote_free(written(settings, field)) && written(
            settings,
            field,
        ).len() > 0,
        field == Field::Delimiter ==> {
            let w = written(settings, field);
            &&& w.len() == settings.delimiter.len() + 2
            &&& w[0] == '"'
            &&& w[settings.delimiter.len() as int + 1] == '"'
            &&& forall|t: int|
                1 <= t <= settings.delimiter.len() ==> #[trigger] w[t] == settings.delimiter[t - 1]
        },
{
    reveal_strlit("\"");
    lemma_decimal_canonical(settings.indent as nat);
}

/// One character of an occurrence.
proof fn lemma_occurrence_char(text: Seq<char>, pattern: Seq<char>, at: int, t: int)
    requires
        occurs_at(text, pattern, at),
        0 <= t < pattern.len(),
    ensures
        text[at + t] == pattern[t],
{
    lemma_occurrence_chars(text, pattern, at);
}

/// A tag that occurs in a text from within an assignment is the tag of that
/// assignment, and occurs at its start. The assignment's delimiter must hold
/// no double quote, and what follows the assignment must end its line.
proof fn lemma_tag_in_assignment(
    settings: SettingsView,
    own: Field,
    field: Field,
    front: Seq<char>,
    back: Seq<char>,
    at: int,
)
    requires
        quote_free(settings.delimiter),
        back.len() > 0,
        back[0] == ',' || back[0] == '\n',
        front.len() <= at < front.len() + assignment(settings, own).len(),
        occurs_at(front + assignment(settings, own) + back, tag(field), at),
    ensures
        at == front.len(),
        own == field,
{
    let a = assignment(settings, own);
    let w = written(settings, own);
    let text = front + a + back;
    let j = at - front.len();
    let ng = own.key().len() as int;
    let nf = field.key().len() as int;
    let d = settings.delimiter;
    let nd = d.len() as int;
    let na = a.len() as int;
    let n0 = front.len() as int;
    lemma_tag_shape(own);
    lemma_tag_shape(field);
    lemma_key_shape(own);
    lemma_key_shape(field);
    lemma_written_shape(settings, own);
    assert(a.len() == ng + 4 + w.len());
    assert forall|t: int| 0 <= t < a.len() implies #[trigger] text[front.len() + t] == a[t] by {}
    assert(text[n0 + na] == back[0]);
    assert forall|t: int| 0 <= t < ng + 4 implies #[trigger] a[t] == tag(own)[t] by {}
    assert forall|t: int| 0 <= t < w.len() implies a[ng + 4 + t] == #[trigger] w[t] by {}
    lemma_occurrence_char(text, tag(field), at, 0);
    assert(text[front.len() + j] == a[j]);
    assert(a[j] == '"');
    if j == 0 {
        // From one double quote to the next lies the name, so the names are
        // of one length.
        if nf < ng {
            lemma_occurrence_char(text, tag(field), at, nf + 1);
            assert(text[front.len() + (nf + 1)] == a[nf + 1]);
            assert(a[nf + 1] == tag(own)[nf + 1]);
        } else if nf > ng {
            lemma_occurrence_char(text, tag(field), at, ng + 1);
            assert(text[front.len() + (ng + 1)] == a[ng + 1]);
            assert(a[ng + 1] == tag(own)[ng + 1]);
        }
        assert(nf == ng);
    } else if j < ng + 4 {
        // The double quote that closes the name: a colon follows.
        assert(a[j] == tag(own)[j]);
        assert(j == ng + 1);
        lemma_occurrence_char(text, tag(field), at, 1);
        assert(text[front.len() + (j + 1)] == a[j + 1]);
        assert(a[j + 1] == tag(own)[j + 1]);
        assert(false);
    } else {
        // A double quote of the value: only the delimiter has them.
        let v = j - (ng + 4);
        assert(a[ng + 4 + v] == w[v]);
        assert(own == Field::Delimiter);
        if v == 0 {
            // The one that opens the delimiter.
            if nf < nd {
                lemma_occurrence_char(text, tag(field), at, nf + 1);
                assert(text[front.len() + (j + nf + 1)] == a[j + nf + 1]);
                assert(a[ng + 4 + (nf + 1)] == w[nf + 1]);
            } else if nf > nd {
                lemma_occurrence_char(text, tag(field), at, nd + 1);
                assert(text[front.len() + (j + nd + 1)] == a[j + nd + 1]);
                assert(a[ng + 4 + (nd + 1)] == w[nd + 1]);
            } else {
                lemma_occurrence_char(text, tag(field), at, nf + 2);
                assert(j + nf + 2 == a.len());
            }
            assert(false);
        } else {
            // The one that closes it: the line ends behind it.
            assert(v == nd + 1);
            lemma_occurrence_char(text, tag(field), at, 1);
            assert(j + 1 == na);
            assert(text[at + 1] == back[0]);
            assert(false);
        }
    }
    lemma_fields_distinct(own, field);
}

/// The annotated settings from the option at `position` on, as far as the
/// assignment of `field`.
pub open spec fn head_from(settings: SettingsView, position: int, field: Field) -> Seq<char>
    decreases FIELD_COUNT - position,
{
    match field_at(position) {
        Some(own) => if own == field {
            gap(position)
        } else {
            gap(position) + assignment(settings, own) + head_from(settings, position + 1, field)
        },
        None => gap(position),
    }
}

/// The annotated settings in front of the assignment of `field`.
pub open spec fn head(settings: SettingsView, field: Field) -> Seq<char> {
    head_from(settings, 0, field)
}

/// The annotated settings behind the assignment of `field`.
pub open spec fn rest(settings: SettingsView, field: Field) -> Seq<char> {
    laid_out_from(settings, field.position() + 1)
}

/// `settings` with the value of `field` taken from `other`.
pub open spec fn with_value(settings: SettingsView, other: SettingsView, field: Field) -> SettingsView {
    match field {
        Field::Indent => SettingsView { indent: other.indent, ..settings },
        Field::Delimiter => SettingsView { delimiter: other.delimiter, ..settings },
        Field::UseReferences => SettingsView { use_references: other.use_references, ..settings },
        Field::UseSections => SettingsView { use_sections: other.use_sections, ..settings },
        Field::UseTabular => SettingsView { use_tabular: other.use_tabular, ..settings },
    }
}

/// A text that occurs somewhere occurs there with every text in front of it
/// and behind it.
proof fn lemma_occurrence_within(
    front: Seq<char>,
    text: Seq<char>,
    back: Seq<char>,
    pattern: Seq<char>,
    at: int,
)
    requires
        occurs_at(text, pattern, at),
    ensures
        occurs_at(front + text + back, pattern, front.len() + at),
{
    assert((front + text + back).subrange(
        front.len() + at,
        front.len() + at + pattern.len(),
    ) =~= text.subrange(at, at + pattern.len()));
}

/// Where a text occurs, so does what it starts with.
proof fn lemma_occurrence_of_start(text: Seq<char>, start: Seq<char>, more: Seq<char>, at: int)
    requires
        occurs_at(text, start + more, at),
    ensures
        occurs_at(text, start, at),
{
    assert(text.subrange(at, at + start.len()) =~= text.subrange(
        at,
        at + (start + more).len(),
    ).subrange(0, start.len() as int));
    assert((start + more).subrange(0, start.len() as int) =~= start);
}

/// A tag occurs in the annotated settings only where the assignment of its
/// option starts.
proof fn lemma_tag_occurs_once(settings: SettingsView, position: int, field: Field, at: int)
    requires
        quote_free(settings.delimiter),
        0 <= position,
        occurs_at(laid_out_from(settings, position), tag(field), at),
    ensures
        field.position() >= position,
        at == head_from(settings, position, field).len(),
    decreases FIELD_COUNT - position,
{
    let text = laid_out_from(settings, position);
    lemma_tag_shape(field);
    lemma_gap_shape(position);
    lemma_occurrence_char(text, tag(field), at, 0);
    match field_at(position) {
        None => {
            assert(false);
        },
        Some(own) => {
            let front = gap(position);
            let a = assignment(settings, own);
            let back = laid_out_from(settings, position + 1);
            lemma_gap_shape(position + 1);
            assert(back.len() > 0 && back[0] == gap(position + 1)[0]);
            assert(text == front + a + back);
            if at < front.len() {
                assert(text[at] == front[at]);
                assert(false);
            } else if at < front.len() + a.len() {
                lemma_tag_in_assignment(settings, own, field, front, back, at);
                lemma_fields_distinct(own, field);
            } else {
                let behind = at - front.len() - a.len();
                assert(back.subrange(behind, behind + tag(field).len()) =~= text.subrange(
                    at,
                    at + tag(field).len(),
                ));
                lemma_tag_occurs_once(settings, position + 1, field, behind);
                lemma_fields_distinct(own, field);
            }
        },
    }
}

/// The annotated settings are what stands in front of an option's
/// assignment, the assignment, and what stands behind it.
proof fn lemma_split(settings: SettingsView, position: int, field: Field)
    requires
        0 <= position <= field.position(),
    ensures
        laid_out_from(settings, position) == head_from(settings, position, field) + assignment(
            settings,
            field,
        ) + rest(settings, field),
    decreases field.position() - position,
{
    lemma_fields_distinct(field, field);
    let own = field_at(position).unwrap();
    if own == field {
    } else {
        lemma_fields_distinct(own, field);
        lemma_split(settings, position + 1, field);
        assert(gap(position) + assignment(settings, own) + (head_from(
            settings,
            position + 1,
            field,
        ) + assignment(settings, field) + rest(settings, field)) =~= gap(position) + assignment(
            settings,
            own,
        ) + head_from(settings, position + 1, field) + assignment(settings, field) + rest(
            settings,
            field,
        ));
    }
}

/// Taking the value of one option from elsewhere changes the assignment of
/// that option and nothing in front of it or behind it.
proof fn lemma_with_value(settings: SettingsView, other: SettingsView, field: Field)
    ensures
        head(with_value(settings, other, field), field) == head(settings, field),
        rest(with_value(settings, other, field), field) == rest(settings, field),
        assignment(with_value(settings, other, field), field) == assignment(other, field),
{
    reveal_with_fuel(head_from, 6);
    reveal_with_fuel(laid_out_from, 7);
}

/// A placeholder occurs in annotated settings only where the assignment of
/// its option starts, whatever the values.
proof fn lemma_placeholder_place(settings: SettingsView, field: Field, at: int)
    requires
        quote_free(settings.delimiter),
        occurs_at(laid_out(settings), placeholder(field), at),
    ensures
        at == head(settings, field).len(),
{
    lemma_occurrence_of_start(
        laid_out(settings),
        tag(field),
        written(SettingsView::defaults(), field),
        at,
    );
    lemma_tag_occurs_once(settings, 0, field, at);
}

/// Exchanging the placeholder of an option that stands at its default
/// writes the new value in and leaves the rest of the annotated settings as
/// it is.
proof fn lemma_substituted_layout(settings: SettingsView, other: SettingsView, field: Field)
    requires
        quote_free(settings.delimiter),
        assignment(settings, field) == placeholder(field),
    ensures
        substituted(laid_out(settings), other, field) == laid_out(
            with_value(settings, other, field),
        ),
{
    let front = head(settings, field);
    let back = rest(settings, field);
    let pattern = placeholder(field);
    let text = laid_out(settings);
    let changed = with_value(settings, other, field);
    lemma_tag_shape(field);
    lemma_split(settings, 0, field);
    lemma_split(changed, 0, field);
    lemma_with_value(settings, other, field);
    assert(text == front + pattern + back);
    assert forall|at: int| 0 <= at < front.len() implies !occurs_at(
        front + pattern + back,
        pattern,
        at,
    ) by {
        if occurs_at(text, pattern, at) {
            lemma_placeholder_place(settings, field, at);
        }
    }
    assert(!contains(back, pattern)) by {
        if contains(back, pattern) {
            let at = choose|at: int| occurs_at(back, pattern, at);
            lemma_occurrence_within(front + pattern, back, Seq::empty(), pattern, at);
            assert(front + pattern + back + Seq::<char>::empty() =~= text);
            lemma_placeholder_place(settings, field, front.len() + pattern.len() + at);
        }
    }
    lemma_replaced_single(front, pattern, back, assignment(other, field));
}

/// The placeholder of every option stands in the default settings exactly
/// once: where the assignment of the option starts, and nowhere else.
pub proof fn lemma_placeholders_stand_once(field: Field, at: int)
    ensures
        occurs_at(default_settings(), placeholder(field), at) <==> at == head(
            SettingsView::defaults(),
            field,
        ).len(),
{
    let defaults = SettingsView::defaults();
    let front = head(defaults, field);
    assert(quote_free(defaults.delimiter));
    lemma_split(defaults, 0, field);
    assert(placeholder(field).subrange(0, placeholder(field).len() as int) =~= placeholder(field));
    lemma_occurrence_within(front, placeholder(field), rest(defaults, field), placeholder(field), 0);
    if occurs_at(default_settings(), placeholder(field), at) {
        lemma_placeholder_place(defaults, field, at);
    }
}

/// Writing values into the default settings by exchange of text.
///
/// For settings whose delimiter holds no double quote, exchanging the
/// placeholders one after the other gives the annotated settings with every
/// value in place: nothing but the five assignments differs from the default
/// settings.
pub proof fn lemma_filled_is_laid_out(settings: SettingsView)
    requires
        quote_free(settings.delimiter),
    ensures
        filled(default_settings(), settings) == laid_out(settings),
{
    let m0 = SettingsView::defaults();
    let m1 = with_value(m0, settings, Field::Indent);
    let m2 = with_value(m1, settings, Field::Delimiter);
    let m3 = with_value(m2, settings, Field::UseReferences);
    let m4 = with_value(m3, settings, Field::UseSections);
    let m5 = with_value(m4, settings, Field::UseTabular);
    assert(quote_free(m0.delimiter));
    lemma_substituted_layout(m0, settings, Field::Indent);
    lemma_substituted_layout(m1, settings, Field::Delimiter);
    lemma_substituted_layout(m2, settings, Field::UseReferences);
    lemma_substituted_layout(m3, settings, Field::UseSections);
    lemma_substituted_layout(m4, settings, Field::UseTabular);
    assert(m5 == settings);
}

/// What the filled-in default settings hold. For settings whose delimiter
/// holds no double quote, the text holds the assignment of every option with
/// its value. The default assignment of a flag or of the delimiter is gone as
/// soon as the value differs from the default. The default assignment of the
/// indentation level, which ends in the digit 1, is still found exactly
/// where the new level starts with that digit, as in 12.
pub proof fn lemma_filled_holds_the_values(settings: SettingsView, field: Field)
    requires
        quote_free(settings.delimiter),
    ensures
        contains(filled(default_settings(), settings), assignment(settings, field)),
        field != Field::Indent && assignment(settings, field) != placeholder(field) ==> !contains(
            filled(default_settings(), settings),
            placeholder(field),
        ),
        contains(filled(default_settings(), settings), placeholder(Field::Indent)) <==> decimal(
            settings.indent as nat,
        )[0] == '1',
{
    lemma_filled_is_laid_out(settings);
    let text = laid_out(settings);
    lemma_present(settings, field);
    if contains(text, placeholder(field)) {
        let at = choose|at: int| occurs_at(text, placeholder(field), at);
        lemma_default_still_found(settings, field, at);
    }
    if contains(text, placeholder(Field::Indent)) {
        let at = choose|at: int| occurs_at(text, placeholder(Field::Indent), at);
        lemma_default_still_found(settings, Field::Indent, at);
    }
    if decimal(settings.indent as nat)[0] == '1' {
        lemma_indent_starts_with_default(settings);
    }
}

/// The annotated settings hold the assignment of every option.
proof fn lemma_present(settings: SettingsView, field: Field)
    ensures
        occurs_at(laid_out(settings), assignment(settings, field), head(settings, field).len() as int),
{
    let a = assignment(settings, field);
    lemma_split(settings, 0, field);
    assert(a.subrange(0, a.len() as int) =~= a);
    lemma_occurrence_within(head(settings, field), a, rest(settings, field), a, 0);
}

/// Where annotated settings hold the default assignment of an option, the
/// option's value starts as the default does: a flag or the delimiter is the
/// default, and the indentation level starts with the digit 1.
proof fn lemma_default_still_found(settings: SettingsView, field: Field, at: int)
    requires
        quote_free(settings.delimiter),
        occurs_at(laid_out(settings), placeholder(field), at),
    ensures
        field != Field::Indent ==> assignment(settings, field) == placeholder(field),
        field == Field::Indent ==> decimal(settings.indent as nat)[0] == '1',
{
    let text = laid_out(settings);
    let defaults = SettingsView::defaults();
    let n = tag(field).len() as int;
    let ws = written(settings, field);
    let wd = written(defaults, field);
    lemma_placeholder_place(settings, field, at);
    lemma_present(settings, field);
    lemma_tag_shape(field);
    lemma_written_shape(settings, field);
    lemma_written_shape(defaults, field);
    lemma_decimal_canonical(settings.indent as nat);
    reveal_with_fuel(decimal, 2);
    reveal_strlit("\"");
    // The first character of the value, and for the delimiter the two
    // behind it.
    lemma_occurrence_char(text, placeholder(field), at, n);
    lemma_occurrence_char(text, assignment(settings, field), at, n);
    assert(placeholder(field)[n] == wd[0]);
    assert(assignment(settings, field)[n] == ws[0]);
    assert(ws[0] == wd[0]);
    if field == Field::Delimiter {
        let d = settings.delimiter;
        assert(wd =~= seq!['"', '|', '"']);
        lemma_occurrence_char(text, placeholder(field), at, n + 1);
        lemma_occurrence_char(text, assignment(settings, field), at, n + 1);
        assert(placeholder(field)[n + 1] == wd[1]);
        assert(assignment(settings, field)[n + 1] == ws[1]);
        assert(d.len() >= 1);
        assert(ws[1] == d[0]);
        lemma_occurrence_char(text, placeholder(field), at, n + 2);
        lemma_occurrence_char(text, assignment(settings, field), at, n + 2);
        assert(placeholder(field)[n + 2] == wd[2]);
        assert(assignment(settings, field)[n + 2] == ws[2]);
        if d.len() >= 2 {
            assert(ws[2] == d[1]);
        }
        assert(d =~= seq!['|']);
    } else if field != Field::Indent {
        assert(ws =~= wd);
    }
}

/// An indentation level that starts with the digit 1 is written with the
/// default assignment at its start.
proof fn lemma_indent_starts_with_default(settings: SettingsView)
    requires
        decimal(settings.indent as nat)[0] == '1',
    ensures
        contains(laid_out(settings), placeholder(Field::Indent)),
{
    let field = Field::Indent;
    let a = assignment(settings, field);
    let p = placeholder(field);
    lemma_decimal_canonical(settings.indent as nat);
    reveal_with_fuel(decimal, 2);
    assert(written(SettingsView::defaults(), field) =~= seq!['1']);
    assert(p =~= a.subrange(0, p.len() as int));
    assert(occurs_at(a, p, 0));
    lemma_split(settings, 0, field);
    lemma_occurrence_within(head(settings, field), a, rest(settings, field), p, 0);
}

} // verus!
