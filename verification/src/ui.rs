//! Lines and styles for terminals.

use vstd::prelude::*;

verus! {

/// A color of text.
#[derive(Clone, Copy, Debug, PartialEq, Eq, Structural)]
pub enum Color {
    Blue,
    Cyan,
    Green,
    Red,
    Yellow,
}

/// An effect of text.
#[derive(Clone, Copy, Debug, PartialEq, Eq, Structural)]
pub enum TextEffect {
    Plain,
    Strikethrough,
}

impl Default for TextEffect {
    /// No effect.
    fn default() -> (r: Self)
        ensures
            r is Plain,
    {
        TextEffect::Plain
    }
}

/// The escape sequence that switches to a color.
pub open spec fn color_code(color: Color) -> Seq<char> {
    match color {
        Color::Blue => "\x1b[34m"@,
        Color::Cyan => "\x1b[36m"@,
        Color::Green => "\x1b[32m"@,
        Color::Red => "\x1b[31m"@,
        Color::Yellow => "\x1b[33m"@,
    }
}

fn ansi_code(color: Color) -> (r: &'static str)
    ensures
        r@ == color_code(color),
{
    match color {
        Color::Blue => "\x1b[34m",
        Color::Cyan => "\x1b[36m",
        Color::Green => "\x1b[32m",
        Color::Red => "\x1b[31m",
        Color::Yellow => "\x1b[33m",
    }
}

/// A text with a color and an effect, as a terminal or another reader gets it:
/// only a terminal gets escape sequences, and only where there is something to
/// switch.
pub open spec fn styled(
    text: Seq<char>,
    color: Option<Color>,
    effect: TextEffect,
    interactive: bool,
) -> Seq<char> {
    if !interactive || (color is None && effect is Plain) {
        text
    } else {
        let struck = if effect is Strikethrough {
            "\x1b[9m"@
        } else {
            Seq::empty()
        };
        let colored = match color {
            Some(c) => color_code(c),
            None => Seq::empty(),
        };
        struck + colored + text + "\x1b[0m"@
    }
}

/// A text with a color and an effect, as a terminal or another reader gets it.
pub fn style_for_terminal(
    text: &str,
    color: Option<Color>,
    effect: TextEffect,
    is_interactive: bool,
) -> (out: String)
    ensures
        out@ == styled(text@, color, effect, is_interactive),
{
    let plain = match effect {
        TextEffect::Plain => true,
        TextEffect::Strikethrough => false,
    };
    if !is_interactive || (color.is_none() && plain) {
        return text.to_owned();
    }
    let mut out = String::new();
    if !plain {
        out.append("\x1b[9m");
    }
    assert(out@ =~= if effect is Strikethrough {
        "\x1b[9m"@
    } else {
        Seq::empty()
    });
    if let Some(c) = color {
        out.append(ansi_code(c));
    }
    assert(out@ =~= if effect is Strikethrough {
        "\x1b[9m"@
    } else {
        Seq::empty()
    } + match color {
        Some(c) => color_code(c),
        None => Seq::empty(),
    });
    out.append(text);
    out.append("\x1b[0m");
    out
}

/// A text that leads to a URL, as a terminal or another reader gets it.
pub open spec fn linked(text: Seq<char>, url: Option<&str>, interactive: bool) -> Seq<char> {
    match url {
        Some(u) => if interactive {
            "\x1b]8;;"@ + u@ + "\x1b\\"@ + text + "\x1b]8;;\x1b\\"@
        } else {
            text
        },
        None => text,
    }
}

/// Something that styled text is written to.
pub trait RenderTarget {
    /// A text with a color and an effect, as the target gets it.
    spec fn styles(&self, text: Seq<char>, color: Option<Color>, effect: TextEffect) -> Seq<char>;

    /// A text that leads to a URL, as the target gets it.
    spec fn links(&self, text: Seq<char>, url: Option<&str>) -> Seq<char>;

    /// A text with a color and an effect.
    fn style(&self, text: &str, color: Option<Color>, effect: TextEffect) -> (out: String)
        ensures
            out@ == self.styles(text@, color, effect),
    ;

    /// A text with a color.
    fn paint(&self, text: &str, color: Color) -> (out: String)
        ensures
            out@ == self.styles(text@, Some(color), TextEffect::Plain),
    {
        self.style(text, Some(color), TextEffect::Plain)
    }

    /// A text with an effect.
    fn effect(&self, text: &str, effect: TextEffect) -> (out: String)
        ensures
            out@ == self.styles(text@, None, effect),
    {
        self.style(text, None, effect)
    }

    /// A text that leads to a URL.
    fn hyperlink(&self, text: &str, url: Option<&str>) -> (out: String)
        ensures
            out@ == self.links(text@, url),
    ;
}

/// The standard output, which may be a terminal.
#[derive(Clone, Copy, Debug, PartialEq, Eq, Structural)]
pub struct StdoutRenderTarget {
    pub interactive: bool,
}

/// The standard error output, which may be a terminal.
#[derive(Clone, Copy, Debug, PartialEq, Eq, Structural)]
pub struct StderrRenderTarget {
    pub interactive: bool,
}

impl RenderTarget for StdoutRenderTarget {
    open spec fn styles(
        &self,
        text: Seq<char>,
        color: Option<Color>,
        effect: TextEffect,
    ) -> Seq<char> {
        styled(text, color, effect, self.interactive)
    }

    open spec fn links(&self, text: Seq<char>, url: Option<&str>) -> Seq<char> {
        linked(text, url, self.interactive)
    }

    fn style(&self, text: &str, color: Option<Color>, effect: TextEffect) -> (out: String) {
        style_for_terminal(text, color, effect, self.interactive)
    }

    fn hyperlink(&self, text: &str, url: Option<&str>) -> (out: String) {
        if !self.interactive {
            return text.to_owned();
        }
        match url {
            Some(u) => "\x1b]8;;".to_owned().concat(u).concat("\x1b\\").concat(text).concat(
                "\x1b]8;;\x1b\\",
            ),
            None => text.to_owned(),
        }
    }
}

impl RenderTarget for StderrRenderTarget {
    open spec fn styles(
        &self,
        text: Seq<char>,
        color: Option<Color>,
        effect: TextEffect,
    ) -> Seq<char> {
        styled(text, color, effect, self.interactive)
    }

    open spec fn links(&self, text: Seq<char>, url: Option<&str>) -> Seq<char> {
        text
    }

    fn style(&self, text: &str, color: Option<Color>, effect: TextEffect) -> (out: String) {
        style_for_terminal(text, color, effect, self.interactive)
    }

    fn hyperlink(&self, text: &str, url: Option<&str>) -> (out: String) {
        text.to_owned()
    }
}

/// The standard output, given whether it is a terminal.
pub fn stdout_render_target(interactive: bool) -> (r: StdoutRenderTarget)
    ensures
        r.interactive == interactive,
{
    StdoutRenderTarget { interactive }
}

/// The standard error output, given whether it is a terminal.
pub fn stderr_render_target(interactive: bool) -> (r: StderrRenderTarget)
    ensures
        r.interactive == interactive,
{
    StderrRenderTarget { interactive }
}

/// An error with the message where the input is not a terminal.
pub fn require_interactive(message: &str, interactive: bool) -> (r: Result<(), String>)
    ensures
        r is Ok <==> interactive,
        r matches Err(e) ==> e@ == message@,
{
    if interactive {
        Ok(())
    } else {
        Err(message.to_owned())
    }
}

/// A question that is put to the user, and its default answer.
#[derive(Clone, Debug, PartialEq, Eq)]
pub struct ConfirmRequest {
    pub prompt: String,
    pub default: bool,
}

/// The question to put to the user, or the usual error where nobody can be
/// asked.
pub fn prompt_confirm(prompt: &str, default: bool, interactive: bool) -> (r: Result<
    ConfirmRequest,
    String,
>)
    ensures
        r is Ok <==> interactive,
        r matches Ok(q) ==> q.prompt@ == prompt@ && q.default == default,
        r matches Err(e) ==> e@ == "Interactive confirmation required."@,
{
    prompt_confirm_with_message(prompt, default, "Interactive confirmation required.", interactive)
}

/// The question to put to the user, or an error with the message where nobody
/// can be asked.
pub fn prompt_confirm_with_message(prompt: &str, default: bool, message: &str, interactive: bool) -> (r:
    Result<ConfirmRequest, String>)
    ensures
        r is Ok <==> interactive,
        r matches Ok(q) ==> q.prompt@ == prompt@ && q.default == default,
        r matches Err(e) ==> e@ == message@,
{
    match require_interactive(message, interactive) {
        Ok(_) => Ok(ConfirmRequest { prompt: prompt.to_owned(), default }),
        Err(e) => Err(e),
    }
}

/// A line with a mark in front, colored for a terminal.
pub open spec fn marked(
    interactive: bool,
    code: Seq<char>,
    mark: Seq<char>,
    message: Seq<char>,
) -> Seq<char> {
    if interactive {
        code + mark + "\x1b[0m "@ + message
    } else {
        mark + " "@ + message
    }
}

fn mark_line(interactive: bool, code: &str, mark: &str, message: &str) -> (out: String)
    ensures
        out@ == marked(interactive, code@, mark@, message@),
{
    if interactive {
        code.to_owned().concat(mark).concat("\x1b[0m ").concat(message)
    } else {
        mark.to_owned().concat(" ").concat(message)
    }
}

/// The line of a warning.
pub fn print_warning(message: &str, interactive: bool) -> (out: String)
    ensures
        out@ == marked(interactive, "\x1b[1;33m"@, "warning:"@, message@),
{
    mark_line(interactive, "\x1b[1;33m", "warning:", message)
}

/// The line of an error.
pub fn print_error(message: &str, interactive: bool) -> (out: String)
    ensures
        out@ == marked(interactive, "\x1b[1;31m"@, "error:"@, message@),
{
    mark_line(interactive, "\x1b[1;31m", "error:", message)
}

/// The line of a stage.
pub fn print_stage(message: &str, interactive: bool) -> (out: String)
    ensures
        out@ == marked(interactive, "\x1b[1;36m"@, "==>"@, message@),
{
    mark_line(interactive, "\x1b[1;36m", "==>", message)
}

/// The line of a success.
pub fn success_line(message: &str, interactive: bool) -> (out: String)
    ensures
        out@ == marked(interactive, "\x1b[1;32m"@, "ok:"@, message@),
{
    mark_line(interactive, "\x1b[1;32m", "ok:", message)
}

/// The line of a detail.
pub fn detail_line(message: &str) -> (out: String)
    ensures
        out@ == "    "@ + message@,
{
    "    ".to_owned().concat(message)
}

/// The line of a notice.
pub fn notice_line(message: &str, interactive: bool) -> (out: String)
    ensures
        out@ == if interactive {
            "\x1b[36m"@ + "INFO"@ + "\x1b[0m"@ + " "@ + message@
        } else {
            "INFO: "@ + message@
        },
{
    if interactive {
        let target = StderrRenderTarget { interactive: true };
        let prefix = target.paint("INFO", Color::Cyan);
        assert(Seq::<char>::empty() + "\x1b[36m"@ =~= "\x1b[36m"@);
        prefix.concat(" ").concat(message)
    } else {
        "INFO: ".to_owned().concat(message)
    }
}

/// The line of an error that must not be overlooked.
pub fn big_red_error_line(message: &str, interactive: bool) -> (out: String)
    ensures
        out@ == if interactive {
            "\x1b[1;37;41m ERROR \x1b[0m \x1b[1;31m"@ + message@ + "\x1b[0m"@
        } else {
            "ERROR: "@ + message@
        },
{
    if interactive {
        "\x1b[1;37;41m ERROR \x1b[0m \x1b[1;31m".to_owned().concat(message).concat("\x1b[0m")
    } else {
        "ERROR: ".to_owned().concat(message)
    }
}

/// The warning for a browser that could not be opened.
pub fn browser_warning(error: &str, url: &str) -> (out: String)
    ensures
        out@ == "Could not open a browser automatically: "@ + error@
            + ". Open this URL manually: "@ + url@,
{
    "Could not open a browser automatically: ".to_owned().concat(error).concat(
        ". Open this URL manually: ",
    ).concat(url)
}

} // verus!
