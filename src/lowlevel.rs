use vstd::prelude::*;
use crate::geometry::{Dimensions, Point};

verus! {

#[verifier::external_type_specification]
#[verifier::external_body]
pub struct ExIoError(std::io::Error);

/// A colour for the plotter's paintbrush. `Unset` restores the terminal's
/// own colour.
#[derive(Clone, Copy, Debug, PartialEq, Eq, Structural)]
pub enum Color {
    Unset,
    Rgb(u8, u8, u8),
    Black,
    Blue,
    Cyan,
    DarkBlue,
    DarkCyan,
    DarkGreen,
    DarkGrey,
    DarkMagenta,
    DarkRed,
    DarkYellow,
    Green,
    Grey,
    Magenta,
    Red,
    White,
    Yellow,
}

/// The style of what is plotted next: foreground and background colour and
/// whether the text is emphasised.
#[derive(Clone, Copy, Debug, PartialEq, Eq, Structural)]
pub struct Paintbrush {
    pub fg: Color,
    pub bg: Color,
    pub bold: bool,
}

impl Paintbrush {
    /// The paintbrush that uses the terminal's own colours.
    pub open spec fn spec_default() -> Paintbrush {
        Paintbrush { fg: Color::Unset, bg: Color::Unset, bold: false }
    }

    /// The paintbrush that uses the terminal's own colours.
    pub fn create_default() -> (r: Paintbrush)
        ensures
            r == Paintbrush::spec_default(),
    {
        Paintbrush { fg: Color::Unset, bg: Color::Unset, bold: false }
    }
}

/// A run of commands from `before` to `after` that issued `expected`: all
/// of it where `ok`, otherwise a non-empty part of it, ending with the
/// command that failed.
pub open spec fn issued(before: Seq<CommandView>, after: Seq<CommandView>, expected: Seq<CommandView>, ok: bool) -> bool {
    if ok {
        after == before + expected
    } else {
        exists|k: int| 0 < k <= expected.len() && after == before + #[trigger] expected.take(k)
    }
}

/// Something that draws text on a character grid. Commands may be queued
/// until `flush` is called. Every command is recorded in `commands`,
/// whether or not it succeeds.
pub trait Plotter {
    /// The commands issued so far, in order.
    spec fn commands(&self) -> Seq<CommandView>;

    /// The size of the area that can be drawn on.
    fn get_plot_area(&self) -> Dimensions;

    /// Use `pb` for everything plotted from now on.
    fn set_paintbrush(&mut self, pb: &Paintbrush) -> (r: Result<(), std::io::Error>)
        ensures
            final(self).commands() == old(self).commands().push(CommandView::SetPaintbrush(*pb)),
    ;

    /// Draw `content` left to right, starting at `location`.
    fn plot(&mut self, location: Point, content: &str) -> (r: Result<(), std::io::Error>)
        ensures
            final(self).commands() == old(self).commands().push(CommandView::PlotObject(location, content@)),
    ;

    /// Show everything queued so far.
    fn flush(&mut self) -> (r: Result<(), std::io::Error>)
        ensures
            final(self).commands() == old(self).commands().push(CommandView::Flush),
    ;
}

/// The device behind a `RecordingPlotter`: a terminal, for one.
pub trait PlotterBackend {
    /// The size of the area that can be drawn on.
    fn get_plot_area(&self) -> Dimensions;

    /// Use `pb` for everything plotted from now on.
    fn set_paintbrush(&mut self, pb: &Paintbrush) -> Result<(), std::io::Error>;

    /// Draw `content` left to right, starting at `location`.
    fn plot(&mut self, location: Point, content: &str) -> Result<(), std::io::Error>;

    /// Show everything queued so far.
    fn flush(&mut self) -> Result<(), std::io::Error>;
}

/// A plotter that passes each command to its backend and keeps a record of
/// the commands.
pub struct RecordingPlotter<BackendT: PlotterBackend> {
    backend: BackendT,
    log: Ghost<Seq<CommandView>>,
}

impl<BackendT: PlotterBackend> RecordingPlotter<BackendT> {
    /// A plotter over `backend` that has issued nothing yet.
    pub fn new(backend: BackendT) -> (r: Self)
        ensures
            r.commands() == Seq::<CommandView>::empty(),
    {
        RecordingPlotter { backend, log: Ghost(Seq::empty()) }
    }
}

impl<BackendT: PlotterBackend> Plotter for RecordingPlotter<BackendT> {
    closed spec fn commands(&self) -> Seq<CommandView> {
        self.log@
    }

    fn get_plot_area(&self) -> Dimensions {
        self.backend.get_plot_area()
    }

    fn set_paintbrush(&mut self, pb: &Paintbrush) -> Result<(), std::io::Error> {
        self.log = Ghost(self.log@.push(CommandView::SetPaintbrush(*pb)));
        self.backend.set_paintbrush(pb)
    }

    fn plot(&mut self, location: Point, content: &str) -> Result<(), std::io::Error> {
        self.log = Ghost(self.log@.push(CommandView::PlotObject(location, content@)));
        self.backend.plot(location, content)
    }

    fn flush(&mut self) -> Result<(), std::io::Error> {
        self.log = Ghost(self.log@.push(CommandView::Flush));
        self.backend.flush()
    }
}

/// A command that a `MockPlotter` received.
#[derive(Debug)]
pub enum MockPlotterCommand {
    SetPaintbrush(Paintbrush),
    PlotObject(Point, String),
    Flush,
}

/// The view of a command: plotted text as its characters.
pub enum CommandView {
    SetPaintbrush(Paintbrush),
    PlotObject(Point, Seq<char>),
    Flush,
}

impl View for MockPlotterCommand {
    type V = CommandView;

    open spec fn view(&self) -> CommandView {
        match self {
            MockPlotterCommand::SetPaintbrush(pb) => CommandView::SetPaintbrush(*pb),
            MockPlotterCommand::PlotObject(p, s) => CommandView::PlotObject(*p, s@),
            MockPlotterCommand::Flush => CommandView::Flush,
        }
    }
}

/// A plotter that draws nothing and records every command, in order.
pub struct MockPlotter {
    pub plot_area: Dimensions,
    pub command_list: Vec<MockPlotterCommand>,
}

impl MockPlotter {

    /// A mock plotter of 20 by 20 characters that has received nothing.
    pub fn new() -> (r: MockPlotter)
        ensures
            r.plot_area == (Dimensions { width: 20, height: 20 }),
            r.commands().len() == 0,
    {
        MockPlotter { plot_area: Dimensions { height: 20, width: 20 }, command_list: Vec::new() }
    }

    /// Record one command.
    fn record(&mut self, c: MockPlotterCommand)
        ensures
            final(self).plot_area == old(self).plot_area,
            final(self).commands() == old(self).commands().push(c@),
    {
        self.command_list.push(c);
        proof {
            assert(self.commands() =~= old(self).commands().push(c@));
        }
    }
}

impl Plotter for MockPlotter {
    closed spec fn commands(&self) -> Seq<CommandView> {
        self.command_list@.map_values(|c: MockPlotterCommand| c@)
    }

    fn get_plot_area(&self) -> (r: Dimensions)
        ensures
            r == self.plot_area,
    {
        self.plot_area
    }

    fn set_paintbrush(&mut self, pb: &Paintbrush) -> Result<(), std::io::Error> {
        self.record(MockPlotterCommand::SetPaintbrush(*pb));
        Ok(())
    }

    fn plot(&mut self, location: Point, content: &str) -> Result<(), std::io::Error> {
        self.record(MockPlotterCommand::PlotObject(location, String::from_str(content)));
        Ok(())
    }

    fn flush(&mut self) -> Result<(), std::io::Error> {
        self.record(MockPlotterCommand::Flush);
        Ok(())
    }
}

} // verus!
