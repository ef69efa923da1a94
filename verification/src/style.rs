//! How progress bars look.
use crate::text::{chars_of, digit_value, digits_value, is_digit};
use indicatif::{ProgressBar, ProgressStyle};
use unicode_width::UnicodeWidthStr;
use vstd::prelude::*;

verus! {

#[verifier::external_type_specification]
#[verifier::external_body]
pub struct ExProgressStyle(ProgressStyle);

#[verifier::external_type_specification]
#[verifier::external_body]
pub struct ExProgressBar(ProgressBar);

/// The template text that a style was given.
pub uninterp spec fn style_template(style: ProgressStyle) -> Seq<char>;

/// The progress characters that a style was given.
pub uninterp spec fn style_chars(style: ProgressStyle) -> Seq<char>;

/// A template text is well formed.
pub uninterp spec fn template_accepted(text: Seq<char>) -> bool;

/// How many columns a text takes up on a terminal.
pub uninterp spec fn display_width(text: Seq<char>) -> usize;

/// The length that a bar was made with.
pub uninterp spec fn bar_length(bar: ProgressBar) -> Option<u64>;

/// The position that a bar was made at.
pub uninterp spec fn bar_position(bar: ProgressBar) -> u64;

/// A bar was made to be drawn on standard error, rather than not at all.
pub uninterp spec fn bar_is_drawn(bar: ProgressBar) -> bool;

/// The template text of the style that a bar was made with.
pub uninterp spec fn bar_template(bar: ProgressBar) -> Seq<char>;

/// The progress characters of the style that a bar was made with.
pub uninterp spec fn bar_chars(bar: ProgressBar) -> Seq<char>;

/// The template of a bar for which none is given.
pub open spec fn default_template() -> Seq<char> {
    "{wide_bar} {pos}/{len}"@
}

/// The progress characters of a bar for which none are given.
pub open spec fn default_chars() -> Seq<char> {
    "█░"@
}

/// Where in a template a character stands.
pub enum Place {
    /// In plain text.
    Plain,
    /// Behind a brace that may open a placeholder.
    Opening,
    /// In the key of a placeholder.
    Key,
    /// In the width of a placeholder, of which that much has been read.
    Width(nat),
    /// In the style of a placeholder.
    Style,
}

/// A blank of ASCII: a space, tab, line feed, form feed or carriage return.
pub open spec fn is_blank(c: char) -> bool {
    c == ' ' || c == '\t' || c == '\n' || c == '\x0C' || c == '\r'
}

impl Place {
    /// The place behind a character, in a template that is well formed up to there.
    pub open spec fn after(self, c: char) -> Place {
        match self {
            Place::Plain => if c == '{' {
                Place::Opening
            } else {
                Place::Plain
            },
            Place::Opening => if c == '{' || is_blank(c) {
                Place::Plain
            } else {
                Place::Key
            },
            Place::Key => if c == ':' {
                Place::Width(0)
            } else if c == '}' || is_blank(c) {
                Place::Plain
            } else {
                Place::Key
            },
            Place::Width(read) => if is_digit(c) {
                Place::Width(read * 10 + digit_value(c))
            } else if c == '.' {
                Place::Style
            } else if c == '}' {
                Place::Plain
            } else {
                self
            },
            Place::Style => if c == '}' {
                Place::Plain
            } else {
                Place::Style
            },
        }
    }
}

/// The place at which the character with that number stands in a template.
pub open spec fn place_at(text: Seq<char>, index: int) -> Place
    decreases index,
{
    if index <= 0 {
        Place::Plain
    } else {
        place_at(text, index - 1).after(text[index - 1])
    }
}

/// A character ends a width of more than 16 bits.
pub open spec fn ends_wide(place: Place, c: char) -> bool {
    place matches Place::Width(read) && read > 65535 && (c == '.' || c == '}')
}

/// No placeholder of a template has a width of more than 16 bits.
pub open spec fn widths_fit(text: Seq<char>) -> bool {
    forall|i: int| 0 <= i < text.len() ==> !ends_wide(#[trigger] place_at(text, i), text[i])
}

/// A template that a style can be given.
pub open spec fn is_template(text: Seq<char>) -> bool {
    widths_fit(text) && template_accepted(text)
}

/// Characters that a bar can be drawn with: two at least, all equally wide.
pub open spec fn are_bar_chars(text: Seq<char>) -> bool {
    text.len() >= 2 && forall|i: int|
        0 <= i < text.len() ==> display_width(seq![#[trigger] text[i]]) == display_width(
            seq![text[0]],
        )
}

/// `ProgressStyle::default_bar`: the style for which nothing is given.
#[verifier::external_body]
fn default_bar() -> (r: ProgressStyle)
    ensures
        style_template(r) == default_template(),
        style_chars(r) == default_chars(),
{
    ProgressStyle::default_bar()
}

/// `ProgressStyle::template`: the style with another template, or `None` where the
/// text is no template. The call panics on a width of more than 16 bits, which
/// `widths_fit` excludes.
#[verifier::external_body]
fn set_template(style: ProgressStyle, text: &str) -> (r: Option<ProgressStyle>)
    requires
        widths_fit(text@),
    ensures
        match r {
            Some(styled) => template_accepted(text@) && style_template(styled) == text@
                && style_chars(styled) == style_chars(style),
            None => !template_accepted(text@),
        },
{
    style.template(text).ok()
}

/// `ProgressStyle::progress_chars`: the style with other progress characters. The call
/// panics where there are fewer than two or they are not equally wide, which
/// `are_bar_chars` excludes.
#[verifier::external_body]
fn set_chars(style: ProgressStyle, text: &str) -> (r: ProgressStyle)
    requires
        are_bar_chars(text@),
    ensures
        style_template(r) == style_template(style),
        style_chars(r) == text@,
{
    style.progress_chars(text)
}

/// `UnicodeWidthStr::width`, by which progress characters are measured: how many
/// columns the text takes up.
#[verifier::external_body]
fn measure(text: &str) -> (r: usize)
    ensures
        r == display_width(text@),
{
    text.width()
}

/// `ProgressBar::hidden`: a bar at its beginning, without a length, that is not drawn,
/// with the style for which nothing is given.
#[verifier::external_body]
fn hidden_bar() -> (r: ProgressBar)
    ensures
        bar_length(r) is None,
        bar_position(r) == 0,
        !bar_is_drawn(r),
        bar_template(r) == default_template(),
        bar_chars(r) == default_chars(),
{
    ProgressBar::hidden()
}

/// `ProgressBar::new`: a bar of that length at its beginning, drawn on standard error,
/// with the style for which nothing is given.
#[verifier::external_body]
fn new_bar(len: u64) -> (r: ProgressBar)
    ensures
        bar_length(r) == Some(len),
        bar_position(r) == 0,
        bar_is_drawn(r),
        bar_template(r) == default_template(),
        bar_chars(r) == default_chars(),
{
    ProgressBar::new(len)
}

/// `ProgressBar::with_style`: the bar with that style, and as it was otherwise.
#[verifier::external_body]
fn set_style(bar: ProgressBar, style: ProgressStyle) -> (r: ProgressBar)
    ensures
        bar_length(r) == bar_length(bar),
        bar_position(r) == bar_position(bar),
        bar_is_drawn(r) == bar_is_drawn(bar),
        bar_template(r) == style_template(style),
        bar_chars(r) == style_chars(style),
{
    bar.with_style(style)
}

/// A place in a template, with a width read up to 65536.
#[derive(Clone, Copy)]
enum Spot {
    Plain,
    Opening,
    Key,
    Width(u32),
    Style,
}

impl Spot {
    /// The spot stands for the place.
    spec fn is_at(self, place: Place) -> bool {
        match place {
            Place::Plain => self is Plain,
            Place::Opening => self is Opening,
            Place::Key => self is Key,
            Place::Width(read) => self matches Spot::Width(seen) && seen == (if read <= 65535 {
                read
            } else {
                65536
            }),
            Place::Style => self is Style,
        }
    }

    /// The spot behind a character.
    fn after(self, c: char) -> (r: Spot)
        requires
            self matches Spot::Width(seen) ==> seen <= 65536,
        ensures
            forall|place: Place| #[trigger] self.is_at(place) ==> r.is_at(place.after(c)),
            r matches Spot::Width(seen) ==> seen <= 65536,
    {
        let blank = c == ' ' || c == '\t' || c == '\n' || c == '\x0C' || c == '\r';
        match self {
            Spot::Plain => if c == '{' {
                Spot::Opening
            } else {
                Spot::Plain
            },
            Spot::Opening => if c == '{' || blank {
                Spot::Plain
            } else {
                Spot::Key
            },
            Spot::Key => if c == ':' {
                Spot::Width(0)
            } else if c == '}' || blank {
                Spot::Plain
            } else {
                Spot::Key
            },
            Spot::Width(seen) => if '0' <= c && c <= '9' {
                let more: u32 = seen * 10 + (c as u32 - 48);
                Spot::Width(
                    if more <= 65535 {
                        more
                    } else {
                        65536
                    },
                )
            } else if c == '.' {
                Spot::Style
            } else if c == '}' {
                Spot::Plain
            } else {
                Spot::Width(seen)
            },
            Spot::Style => if c == '}' {
                Spot::Plain
            } else {
                Spot::Style
            },
        }
    }
}

/// Whether a text is a template that a style can be given.
fn check_template(text: &str) -> (r: bool)
    ensures
        r == is_template(text@),
{
    let chars = chars_of(text);
    let mut spot = Spot::Plain;
    let mut i: usize = 0;
    while i < chars.len()
        invariant
            chars@ == text@,
            i <= chars@.len(),
            spot.is_at(place_at(text@, i as int)),
            spot matches Spot::Width(seen) ==> seen <= 65536,
            forall|j: int| 0 <= j < i ==> !ends_wide(#[trigger] place_at(text@, j), text@[j]),
        decreases chars.len() - i,
    {
        let c = chars[i];
        if let Spot::Width(seen) = spot {
            if seen > 65535 && (c == '.' || c == '}') {
                assert(ends_wide(place_at(text@, i as int), text@[i as int]));
                return false;
            }
        }
        assert(!ends_wide(place_at(text@, i as int), c));
        spot = spot.after(c);
        i = i + 1;
    }
    set_template(default_bar(), text).is_some()
}

/// Whether a bar can be drawn with the characters of a text.
fn check_chars(text: &str) -> (r: bool)
    ensures
        r == are_bar_chars(text@),
{
    let count: usize = text.unicode_len();
    if count < 2 {
        return false;
    }
    let first: usize = measure(text.substring_char(0, 1));
    assert(text@.subrange(0, 1) =~= seq![text@[0]]);
    let mut i: usize = 1;
    while i < count
        invariant
            count == text@.len(),
            1 <= i <= count,
            first == display_width(seq![text@[0]]),
            forall|j: int| 0 <= j < i ==> display_width(seq![#[trigger] text@[j]]) == first,
        decreases count - i,
    {
        let here: usize = measure(text.substring_char(i, i + 1));
        assert(text@.subrange(i as int, i + 1) =~= seq![text@[i as int]]);
        if here != first {
            return false;
        }
        i = i + 1;
    }
    true
}

/// How one kind of progress bar looks, and what becomes of it in the end.
#[derive(Debug)]
pub struct ProgressBarOpts {
    template: Option<String>,
    progress_chars: Option<String>,
    enabled: bool,
    clear: bool,
}

/// The text of an optional string.
pub open spec fn text_of(text: Option<String>) -> Option<Seq<char>> {
    match text {
        Some(text) => Some(text@),
        None => None,
    }
}

/// The settings of a progress bar: template, progress characters, whether it is shown,
/// whether it is cleared in the end.
pub struct BarSettings {
    pub template: Option<Seq<char>>,
    pub progress_chars: Option<Seq<char>>,
    pub enabled: bool,
    pub clear: bool,
}

impl View for ProgressBarOpts {
    type V = BarSettings;

    closed spec fn view(&self) -> BarSettings {
        BarSettings {
            template: text_of(self.template),
            progress_chars: text_of(self.progress_chars),
            enabled: self.enabled,
            clear: self.clear,
        }
    }
}

impl BarSettings {
    /// The settings describe a style that a bar can be given.
    pub open spec fn can_style(self) -> bool {
        (self.template matches Some(text) ==> is_template(text)) && (
        self.progress_chars matches Some(text) ==> are_bar_chars(text))
    }

    /// The template that the settings come down to.
    pub open spec fn used_template(self) -> Seq<char> {
        match self.template {
            Some(text) => text,
            None => default_template(),
        }
    }

    /// The progress characters that the settings come down to.
    pub open spec fn used_chars(self) -> Seq<char> {
        match self.progress_chars {
            Some(text) => text,
            None => default_chars(),
        }
    }

    /// A style is what the settings come down to.
    pub open spec fn is_style(self, style: ProgressStyle) -> bool {
        style_template(style) == self.used_template() && style_chars(style) == self.used_chars()
    }

    /// A bar of that length, at its beginning, is what the settings come down to.
    pub open spec fn is_bar(self, bar: ProgressBar, len: u64) -> bool {
        bar_position(bar) == 0 && if self.enabled {
            bar_is_drawn(bar) && bar_length(bar) == Some(len) && bar_template(bar)
                == self.used_template() && bar_chars(bar) == self.used_chars()
        } else {
            !bar_is_drawn(bar) && bar_length(bar) is None && bar_template(bar)
                == default_template() && bar_chars(bar) == default_chars()
        }
    }
}

/// The settings of a bar for which nothing is given.
pub open spec fn default_settings() -> BarSettings {
    BarSettings { template: None, progress_chars: None, enabled: true, clear: true }
}

/// The settings of a bar that is not shown.
pub open spec fn hidden_settings() -> BarSettings {
    BarSettings { template: None, progress_chars: None, enabled: false, clear: true }
}

/// The settings of the bar of one download.
pub open spec fn pip_settings() -> BarSettings {
    BarSettings {
        template: Some(ProgressBarOpts::TEMPLATE_PIP@),
        progress_chars: Some(ProgressBarOpts::CHARS_LINE@),
        enabled: true,
        clear: true,
    }
}

/// The settings of the bar over all downloads.
pub open spec fn main_settings() -> BarSettings {
    BarSettings {
        template: Some(ProgressBarOpts::TEMPLATE_BAR_WITH_POSITION@),
        progress_chars: Some(ProgressBarOpts::CHARS_LINE@),
        enabled: true,
        clear: false,
    }
}

impl Default for ProgressBarOpts {
    fn default() -> (r: Self)
        ensures
            r@ == default_settings(),
    {
        ProgressBarOpts { template: None, progress_chars: None, enabled: true, clear: true }
    }
}

impl Clone for ProgressBarOpts {
    fn clone(&self) -> (r: Self)
        ensures
            r == *self,
    {
        ProgressBarOpts {
            template: match &self.template {
                Some(text) => Some(text.clone()),
                None => None,
            },
            progress_chars: match &self.progress_chars {
                Some(text) => Some(text.clone()),
                None => None,
            },
            enabled: self.enabled,
            clear: self.clear,
        }
    }
}

impl ProgressBarOpts {
    pub const TEMPLATE_BAR_WITH_POSITION: &'static str =
        "{bar:40.blue} {pos:>}/{len} ({percent}%) eta {eta_precise:.blue}";

    pub const TEMPLATE_PIP: &'static str =
        "{bar:40.green/black} {bytes:>11.green}/{total_bytes:<11.green} {bytes_per_sec:>13.red} eta {eta:.blue}";

    pub const CHARS_LINE: &'static str = "━╾╴─";

    /// A bar with these settings.
    pub fn new(
        template: Option<String>,
        progress_chars: Option<String>,
        enabled: bool,
        clear: bool,
    ) -> (r: Self)
        ensures
            r@ == (BarSettings {
                template: text_of(template),
                progress_chars: text_of(progress_chars),
                enabled,
                clear,
            }),
    {
        ProgressBarOpts { template, progress_chars, enabled, clear }
    }

    /// Whether the settings describe a style that a bar can be given.
    pub fn can_style(&self) -> (r: bool)
        ensures
            r == self@.can_style(),
    {
        if let Some(text) = &self.template {
            if !check_template(text.as_str()) {
                return false;
            }
        }
        if let Some(text) = &self.progress_chars {
            if !check_chars(text.as_str()) {
                return false;
            }
        }
        true
    }

    /// The style that the settings come down to.
    pub fn to_progress_style(self) -> (r: ProgressStyle)
        requires
            self@.can_style(),
        ensures
            self@.is_style(r),
    {
        let mut style = default_bar();
        if let Some(text) = &self.template {
            style = set_template(style, text.as_str()).unwrap();
        }
        if let Some(text) = &self.progress_chars {
            style = set_chars(style, text.as_str());
        }
        style
    }

    /// The style that the settings come down to; `None` where they describe no style.
    pub fn try_progress_style(self) -> (r: Option<ProgressStyle>)
        ensures
            r is Some <==> self@.can_style(),
            r matches Some(style) ==> self@.is_style(style),
    {
        if self.can_style() {
            Some(self.to_progress_style())
        } else {
            None
        }
    }

    /// A bar of that length with these settings, at its beginning. A bar that is not
    /// shown has no length and the style for which nothing is given.
    pub fn to_progress_bar(self, len: u64) -> (r: ProgressBar)
        requires
            self@.enabled ==> self@.can_style(),
        ensures
            self@.is_bar(r, len),
    {
        if !self.enabled {
            return hidden_bar();
        }
        let style = self.to_progress_style();
        set_style(new_bar(len), style)
    }

    /// A bar of that length with these settings; `None` where it would be shown and
    /// the settings describe no style.
    pub fn try_progress_bar(self, len: u64) -> (r: Option<ProgressBar>)
        ensures
            r is Some <==> (self@.enabled ==> self@.can_style()),
            r matches Some(bar) ==> self@.is_bar(bar, len),
    {
        if !self.enabled || self.can_style() {
            Some(self.to_progress_bar(len))
        } else {
            None
        }
    }

    /// The bar of one download.
    pub fn with_pip_style() -> (r: Self)
        ensures
            r@ == pip_settings(),
    {
        ProgressBarOpts {
            template: Some(ProgressBarOpts::TEMPLATE_PIP.to_owned()),
            progress_chars: Some(ProgressBarOpts::CHARS_LINE.to_owned()),
            enabled: true,
            clear: true,
        }
    }

    /// Sets whether the bar is cleared in the end.
    pub fn set_clear(&mut self, clear: bool)
        ensures
            final(self)@ == (BarSettings { clear, ..old(self)@ }),
    {
        self.clear = clear;
    }

    /// Whether the bar is cleared in the end.
    pub fn clears(&self) -> (r: bool)
        ensures
            r == self@.clear,
    {
        self.clear
    }

    /// A bar that is not shown.
    pub fn hidden() -> (r: Self)
        ensures
            r@ == hidden_settings(),
    {
        ProgressBarOpts { enabled: false, ..ProgressBarOpts::default() }
    }
}

/// How the bar over all downloads looks, and how the bar of each one does.
#[derive(Debug)]
pub struct StyleOptions {
    main: ProgressBarOpts,
    child: ProgressBarOpts,
}

impl Default for StyleOptions {
    fn default() -> (r: Self)
        ensures
            r.main_bar()@ == main_settings(),
            r.child_bar()@ == pip_settings(),
    {
        StyleOptions {
            main: ProgressBarOpts {
                template: Some(ProgressBarOpts::TEMPLATE_BAR_WITH_POSITION.to_owned()),
                progress_chars: Some(ProgressBarOpts::CHARS_LINE.to_owned()),
                enabled: true,
                clear: false,
            },
            child: ProgressBarOpts::with_pip_style(),
        }
    }
}

impl Clone for StyleOptions {
    fn clone(&self) -> (r: Self)
        ensures
            r == *self,
    {
        StyleOptions { main: self.main.clone(), child: self.child.clone() }
    }
}

impl StyleOptions {
    /// The bar over all downloads.
    pub closed spec fn main_bar(self) -> ProgressBarOpts {
        self.main
    }

    /// The bar of one download.
    pub closed spec fn child_bar(self) -> ProgressBarOpts {
        self.child
    }

    /// These two bars.
    pub fn new(main: ProgressBarOpts, child: ProgressBarOpts) -> (r: Self)
        ensures
            r.main_bar() == main,
            r.child_bar() == child,
    {
        StyleOptions { main, child }
    }

    /// Sets the bar over all downloads.
    pub fn set_main(&mut self, main: ProgressBarOpts)
        ensures
            final(self).main_bar() == main,
            final(self).child_bar() == old(self).child_bar(),
    {
        self.main = main;
    }

    /// Sets the bar of one download.
    pub fn set_child(&mut self, child: ProgressBarOpts)
        ensures
            final(self).main_bar() == old(self).main_bar(),
            final(self).child_bar() == child,
    {
        self.child = child;
    }

    /// The bar over all downloads.
    pub fn main(&self) -> (r: &ProgressBarOpts)
        ensures
            *r == self.main_bar(),
    {
        &self.main
    }

    /// The bar of one download.
    pub fn child(&self) -> (r: &ProgressBarOpts)
        ensures
            *r == self.child_bar(),
    {
        &self.child
    }

    /// Whether any bar is shown.
    pub fn is_enabled(&self) -> (r: bool)
        ensures
            r == (self.main_bar()@.enabled || self.child_bar()@.enabled),
    {
        self.main.enabled || self.child.enabled
    }
}

/// Behind plain text without an opening brace there is plain text again.
proof fn lemma_plain_stays(text: Seq<char>, from: int, to: int)
    requires
        0 <= from <= to <= text.len(),
        place_at(text, from) == Place::Plain || place_at(text, from) == Place::Style,
        forall|i: int| from <= i < to ==> text[i] != '{',
    ensures
        place_at(text, to) == Place::Plain || place_at(text, to) == Place::Style,
        place_at(text, from) == Place::Plain ==> place_at(text, to) == Place::Plain,
        forall|i: int|
            from <= i < to ==> !ends_wide(#[trigger] place_at(text, i), text[i]) && place_at(
                text,
                i,
            ) !is Width,
    decreases to - from,
{
    if from < to {
        lemma_plain_stays(text, from, to - 1);
    }
}

/// Places depend on what stands before them alone.
proof fn lemma_place_of_prefix(text: Seq<char>, front: Seq<char>, index: int)
    requires
        0 <= index <= front.len() <= text.len(),
        front.is_prefix_of(text),
    ensures
        place_at(text, index) == place_at(front, index),
    decreases index,
{
    if index > 0 {
        lemma_place_of_prefix(text, front, index - 1);
        assert(front[index - 1] == text[index - 1]);
    }
}

/// The characters of a key are in the key.
proof fn lemma_key_stays(text: Seq<char>, from: int, to: int)
    requires
        0 < from <= to <= text.len(),
        place_at(text, from) == Place::Key,
        forall|i: int|
            from <= i < to ==> text[i] != ':' && text[i] != '}' && text[i] != ' ' && text[i] != '\t'
                && text[i] != '\n' && text[i] != '\x0C' && text[i] != '\r',
    ensures
        forall|i: int| from <= i <= to ==> #[trigger] place_at(text, i) == Place::Key,
    decreases to - from,
{
    if from < to {
        lemma_key_stays(text, from, to - 1);
        assert(place_at(text, to - 1) == Place::Key);
    }
}

/// The digits of a width make the width.
proof fn lemma_width_is_read(text: Seq<char>, from: int, width: Seq<char>, n: int)
    requires
        0 <= from,
        from + width.len() <= text.len(),
        0 <= n <= width.len(),
        place_at(text, from) == Place::Width(0),
        forall|i: int| 0 <= i < width.len() ==> text[from + i] == #[trigger] width[i],
        forall|i: int| 0 <= i < width.len() ==> '0' <= #[trigger] width[i] <= '9',
    ensures
        place_at(text, from + n) == Place::Width(digits_value(width.take(n))),
    decreases n,
{
    if n > 0 {
        lemma_width_is_read(text, from, width, n - 1);
        assert(width.take(n).drop_last() =~= width.take(n - 1));
        assert(width.take(n).last() == width[n - 1]);
        assert(text[from + (n - 1)] == width[n - 1]);
    } else {
        assert(width.take(0) =~= Seq::empty());
    }
}

/// Text without an opening brace has no width, however many digits it holds, and changes
/// nothing behind other plain text. Neither does a brace that is written twice.
pub proof fn law_plain_text_has_no_width(front: Seq<char>, plain: Seq<char>)
    requires
        place_at(front, front.len() as int) == Place::Plain,
        !plain.contains('{'),
    ensures
        widths_fit(front + plain) <==> widths_fit(front),
        place_at(front + plain, (front + plain).len() as int) == Place::Plain,
        widths_fit(front + seq!['{', '{']) <==> widths_fit(front),
        place_at(front + seq!['{', '{'], front.len() as int + 2) == Place::Plain,
        widths_fit(plain),
        place_at(plain, plain.len() as int) == Place::Plain,
{
    let n = front.len() as int;
    assert forall|i: int| 0 <= i < plain.len() implies plain[i] != '{' by {
        assert(plain.contains(plain[i]));
    }
    lemma_plain_stays(plain, 0, plain.len() as int);
    let text = front + plain;
    lemma_fits_prefix(text, front);
    lemma_place_of_prefix(text, front, n);
    lemma_plain_stays(text, n, text.len() as int);
    let escaped = front + seq!['{', '{'];
    lemma_fits_prefix(escaped, front);
    lemma_place_of_prefix(escaped, front, n);
    assert(place_at(escaped, n + 1) == Place::Opening);
    assert(place_at(escaped, n + 2) == Place::Plain);
}

/// A text fits if its beginning does, and the rest.
proof fn lemma_fits_prefix(text: Seq<char>, front: Seq<char>)
    requires
        front.is_prefix_of(text),
    ensures
        widths_fit(text) <==> widths_fit(front) && forall|i: int|
            front.len() <= i < text.len() ==> !ends_wide(#[trigger] place_at(text, i), text[i]),
{
    assert forall|i: int| 0 <= i < front.len() implies ends_wide(
        #[trigger] place_at(text, i),
        text[i],
    ) == ends_wide(place_at(front, i), front[i]) by {
        lemma_place_of_prefix(text, front, i);
        assert(front[i] == text[i]);
    }
    if widths_fit(text) {
        assert forall|i: int| 0 <= i < front.len() implies !ends_wide(
            #[trigger] place_at(front, i),
            front[i],
        ) by {
            assert(!ends_wide(place_at(text, i), text[i]));
        }
    }
}

/// A placeholder behind plain text fits just when the number that stands as its width is
/// at most 65535; behind it there is plain text again, or its style.
pub proof fn law_width_of_a_placeholder(
    front: Seq<char>,
    key: Seq<char>,
    width: Seq<char>,
    end: char,
    rest: Seq<char>,
)
    requires
        place_at(front, front.len() as int) == Place::Plain,
        key.len() > 0,
        key[0] != '{',
        forall|i: int|
            0 <= i < key.len() ==> #[trigger] key[i] != ':' && key[i] != '}' && key[i] != ' '
                && key[i] != '\t' && key[i] != '\n' && key[i] != '\x0C' && key[i] != '\r',
        forall|i: int| 0 <= i < width.len() ==> '0' <= #[trigger] width[i] <= '9',
        end == '}' || end == '.',
        !rest.contains('{'),
    ensures
        ({
            let text = front + seq!['{'] + key + seq![':'] + width + seq![end] + rest;
            &&& widths_fit(text) <==> widths_fit(front) && digits_value(width) <= 65535
            &&& end == '}' ==> place_at(text, text.len() as int) == Place::Plain
        }),
{
    let text = front + seq!['{'] + key + seq![':'] + width + seq![end] + rest;
    let n = front.len() as int;
    let k = n + 1 + key.len();
    let w = k + 1;
    let e = w + width.len();
    lemma_fits_prefix(text, front);
    lemma_place_of_prefix(text, front, n);
    assert(text[n] == '{');
    assert(place_at(text, n + 1) == Place::Opening);
    assert forall|i: int| n + 1 <= i < k implies text[i] == key[i - n - 1] by {}
    assert(text[n + 1] == key[0]);
    assert(place_at(text, n + 2) == Place::Key);
    lemma_key_stays(text, n + 2, k);
    assert(text[k] == ':');
    assert(place_at(text, k) == Place::Key);
    assert(place_at(text, w) == Place::Width(0));
    assert forall|i: int| 0 <= i < width.len() implies text[w + i] == #[trigger] width[i] by {}
    assert forall|i: int| w <= i < e implies !ends_wide(#[trigger] place_at(text, i), text[i]) by {
        assert(text[w + (i - w)] == width[i - w]);
    }
    lemma_width_is_read(text, w, width, width.len() as int);
    assert(width.take(width.len() as int) =~= width);
    assert(text[e] == end);
    assert forall|i: int| e + 1 <= i < text.len() implies text[i] != '{' by {
        assert(text[i] == rest[i - e - 1]);
        assert(rest.contains(rest[i - e - 1]));
    }
    lemma_plain_stays(text, e + 1, text.len() as int);
    assert forall|i: int| n <= i < e implies !ends_wide(#[trigger] place_at(text, i), text[i]) by {
        if i == n {
        } else if i == n + 1 {
        } else if i <= k {
            assert(place_at(text, i) == Place::Key);
        }
    }
    assert(place_at(text, e) == Place::Width(digits_value(width)));
    if digits_value(width) > 65535 {
        assert(ends_wide(place_at(text, e), text[e]));
    }
}

/// Characters draw a bar just when there are two at least and any two are equally wide.
pub proof fn law_bar_chars_are_equally_wide(text: Seq<char>)
    ensures
        are_bar_chars(text) <==> text.len() >= 2 && forall|i: int, j: int|
            0 <= i < text.len() && 0 <= j < text.len() ==> display_width(seq![#[trigger] text[i]])
                == display_width(seq![#[trigger] text[j]]),
{
}

/// Settings describe a style just when the template that they give, if they do, has no
/// width of more than 16 bits and is accepted, and a bar can be drawn with the
/// characters that they give, if they do.
pub proof fn law_settings_describe_a_style(settings: BarSettings)
    ensures
        settings.can_style() <==> (settings.template is Some ==> widths_fit(settings.template->0)
            && template_accepted(settings.template->0)) && (settings.progress_chars is Some
            ==> are_bar_chars(settings.progress_chars->0)),
{
}

/// A style has the template and the characters that are given, and the usual ones where
/// none are. A bar that is shown has that style and the length that it is made for; one
/// that is not shown is not drawn and has no length. Either is at its beginning.
pub proof fn law_bar_is_as_it_is_set(
    settings: BarSettings,
    style: ProgressStyle,
    bar: ProgressBar,
    len: u64,
)
    ensures
        ({
            let template = if settings.template is Some {
                settings.template->0
            } else {
                "{wide_bar} {pos}/{len}"@
            };
            let chars = if settings.progress_chars is Some {
                settings.progress_chars->0
            } else {
                "█░"@
            };
            &&& settings.is_style(style) ==> style_template(style) == template && style_chars(style)
                == chars
            &&& settings.is_bar(bar, len) ==> bar_position(bar) == 0 && bar_is_drawn(bar)
                == settings.enabled
            &&& settings.is_bar(bar, len) && settings.enabled ==> bar_length(bar) == Some(len)
                && bar_template(bar) == template && bar_chars(bar) == chars
            &&& settings.is_bar(bar, len) && !settings.enabled ==> bar_length(bar) is None
                && bar_template(bar) == "{wide_bar} {pos}/{len}"@ && bar_chars(bar) == "█░"@
        }),
{
}

/// The bars that can be had without further settings.
pub proof fn law_ready_made_bars()
    ensures
        default_settings() == (BarSettings {
            template: None,
            progress_chars: None,
            enabled: true,
            clear: true,
        }),
        hidden_settings() == (BarSettings {
            template: None,
            progress_chars: None,
            enabled: false,
            clear: true,
        }),
        pip_settings() == (BarSettings {
            template: Some(
                "{bar:40.green/black} {bytes:>11.green}/{total_bytes:<11.green} {bytes_per_sec:>13.red} eta {eta:.blue}"@,
            ),
            progress_chars: Some("━╾╴─"@),
            enabled: true,
            clear: true,
        }),
        main_settings() == (BarSettings {
            template: Some("{bar:40.blue} {pos:>}/{len} ({percent}%) eta {eta_precise:.blue}"@),
            progress_chars: Some("━╾╴─"@),
            enabled: true,
            clear: false,
        }),
        ProgressBarOpts::TEMPLATE_PIP@
            == "{bar:40.green/black} {bytes:>11.green}/{total_bytes:<11.green} {bytes_per_sec:>13.red} eta {eta:.blue}"@,
        ProgressBarOpts::TEMPLATE_BAR_WITH_POSITION@
            == "{bar:40.blue} {pos:>}/{len} ({percent}%) eta {eta_precise:.blue}"@,
        ProgressBarOpts::CHARS_LINE@ == "━╾╴─"@,
{
}

/// The text of an optional string is that of the string, where there is one.
pub proof fn law_optional_text(text: String)
    ensures
        text_of(None) is None,
        text_of(Some(text)) == Some(text@),
{
}

} // verus!
