//! Processing one buffer into a report.

use crate::buffer::RawBuffer;
use crate::config::MeterConfig;
use crate::decibels::is_loudness;
use crate::decibels::to_decibels_overload;
use crate::decibels::Decibels;
use crate::deinterleave::channel_of;
use crate::deinterleave::deinterleave;
use crate::format::SampleEncoding;
use crate::format::SampleFormat;
use crate::loudness::is_root_mean_square;
use crate::loudness::lemma_root_mean_square_unique;
use crate::loudness::root_mean_square;
use crate::loudness::silent;
use crate::loudness::Rms;
use crate::loudness::FULL_SCALE_Q31;
use crate::render::append_channel;
use crate::render::channel_text;
use crate::render::header_line;
use crate::render::header_text;
use crate::render::lemma_channel_text;
use crate::render::lemma_header_text;
use crate::render::single_line;
use crate::sample::CanonicalSample;
use crate::scale::bar_spec;
use crate::scale::discrete_level_spec;
use crate::scale::horizontal_scale;
use crate::scale::intensity_spec;
use crate::scale::lemma_intensity_range;
use crate::scale::scale_to_intensity;
use crate::scale::Intensity;
use vstd::prelude::*;

verus! {

/// What was measured of one channel of one buffer.
#[derive(Clone, Copy, PartialEq, Eq, Debug)]
pub struct ChannelMeasurement {
    pub channel_index: usize,
    pub rms: Rms,
    pub loudness_db: Decibels,
    pub display_intensity: Intensity,
}

/// What a report holds.
pub ghost struct ReportView {
    pub format: SampleFormat,
    pub floor: Decibels,
    pub level_count: nat,
    pub sample_count: nat,
    pub channel_count: nat,
    pub duration_micros: nat,
    pub channels: Seq<ChannelMeasurement>,
    pub rendered_text: Seq<char>,
}

/// The outcome of processing one buffer: the format of the buffer and the
/// configuration it was measured with, its geometry, one measurement per
/// channel in channel order, and the report line. The initial report,
/// which stands for "no buffer yet", has no channel, no sample and an
/// empty line.
#[derive(Debug)]
pub struct BufferReport {
    format: SampleFormat,
    config: MeterConfig,
    sample_count: usize,
    channel_count: usize,
    duration_micros: u128,
    channels: Vec<ChannelMeasurement>,
    rendered_text: String,
}

impl ReportView {
    /// Whether the measurement of channel `c` is in its place and agrees
    /// with the report's floor: it is at or above the floor, and its
    /// intensity is that of its level.
    pub open spec fn channel_agrees(self, c: int) -> bool {
        &&& self.channels[c].channel_index == c
        &&& self.floor.millis <= self.channels[c].loudness_db.millis
        &&& self.channels[c].display_intensity@ == intensity_spec(
            self.channels[c].loudness_db,
            self.floor,
        )
    }

    /// Whether this is the report of a buffer: every part of it agrees
    /// with every other. The channel count is the format's, the duration
    /// is that of the samples at the format's rate, there is one
    /// measurement per channel, and the text is the line of these values.
    pub open spec fn complete(self) -> bool {
        &&& self.format.valid()
        &&& self.floor.millis < 0
        &&& self.level_count >= 1
        &&& self.sample_count > 0
        &&& self.channel_count == self.format.channel_count
        &&& self.duration_micros == duration_micros_spec(
            self.sample_count,
            self.format.sample_rate as nat,
        )
        &&& self.channels.len() == self.channel_count
        &&& forall|c: int| 0 <= c < self.channels.len() ==> #[trigger] self.channel_agrees(c)
        &&& self.rendered_text == line_text(self)
    }

    /// Whether this is the initial report.
    pub open spec fn is_initial(self) -> bool {
        &&& self.sample_count == 0
        &&& self.channel_count == 0
        &&& self.duration_micros == 0
        &&& self.channels.len() == 0
        &&& self.rendered_text.len() == 0
    }

    /// What holds of every report: it is the initial report, or the
    /// report of a buffer.
    pub open spec fn well_formed(self) -> bool {
        self.is_initial() || self.complete()
    }
}

impl View for BufferReport {
    type V = ReportView;

    closed spec fn view(&self) -> ReportView {
        ReportView {
            format: self.format,
            floor: self.config.floor(),
            level_count: self.config.levels(),
            sample_count: self.sample_count as nat,
            channel_count: self.channel_count as nat,
            duration_micros: self.duration_micros as nat,
            channels: self.channels@,
            rendered_text: self.rendered_text@,
        }
    }
}

/// The duration of `sample_count` frames at `sample_rate` frames per
/// second, in microseconds: `1000000 * sample_count / sample_rate`,
/// rounded to the nearest microsecond, halves up.
pub open spec fn duration_micros_spec(sample_count: nat, sample_rate: nat) -> nat {
    (2_000_000 * sample_count + sample_rate) / (2 * sample_rate)
}

/// Whether `measurement` is what `log` admits for the channel `index`
/// with the root mean square it names: the level is a level of that root
/// mean square, and the intensity is that of the level against the floor.
pub open spec fn is_measurement<L: Fn(Rms) -> Decibels>(
    log: L,
    floor: Decibels,
    index: int,
    measurement: ChannelMeasurement,
) -> bool {
    &&& measurement.channel_index == index
    &&& is_loudness(log, measurement.rms, floor, measurement.loudness_db)
    &&& measurement.display_intensity@ == intensity_spec(measurement.loudness_db, floor)
}

/// The bar that is drawn for an intensity among `level_count` levels: one
/// cell less than there are levels.
pub open spec fn bar_of(intensity: Intensity, level_count: int) -> Seq<char> {
    bar_spec(discrete_level_spec(intensity@, level_count), level_count - 1)
}

/// The parts of a report line for the given channels, in their order.
pub open spec fn channels_text(channels: Seq<ChannelMeasurement>, level_count: int) -> Seq<char>
    decreases channels.len(),
{
    if channels.len() == 0 {
        Seq::empty()
    } else {
        channels_text(channels.drop_last(), level_count) + channel_text(
            channels.last().channel_index as nat,
            bar_of(channels.last().display_intensity, level_count),
            channels.last().loudness_db,
        )
    }
}

/// The whole report line: the head, then the channels in their order.
pub open spec fn line_text(view: ReportView) -> Seq<char> {
    header_text(view.sample_count, view.format.encoding, view.channel_count, view.duration_micros)
        + channels_text(view.channels, view.level_count as int)
}

/// A bar is drawn with `=` and blanks, so it stays on one line.
pub proof fn lemma_bar_single_line(filled: int, width: int)
    ensures
        single_line(bar_spec(filled, width)),
{
}

/// The parts of a report line for any channels stay on one line.
pub proof fn lemma_channels_text(channels: Seq<ChannelMeasurement>, level_count: int)
    ensures
        single_line(channels_text(channels, level_count)),
    decreases channels.len(),
{
    if channels.len() > 0 {
        let last = channels.last();
        lemma_channels_text(channels.drop_last(), level_count);
        lemma_bar_single_line(
            discrete_level_spec(last.display_intensity@, level_count),
            level_count - 1,
        );
        lemma_channel_text(
            last.channel_index as nat,
            bar_of(last.display_intensity, level_count),
            last.loudness_db,
        );
    }
}

/// The report line has no line break in it.
pub proof fn lemma_line_text_single_line(view: ReportView)
    ensures
        single_line(line_text(view)),
{
    lemma_header_text(
        view.sample_count,
        view.format.encoding,
        view.channel_count,
        view.duration_micros,
    );
    lemma_channels_text(view.channels, view.level_count as int);
}

/// Every report stays on one line, has as many measurements as channels,
/// each under its own index and with an intensity in `[0, 1]`, and has
/// samples if and only if it has channels.
pub proof fn lemma_well_formed_report(view: ReportView)
    requires
        view.well_formed(),
    ensures
        single_line(view.rendered_text),
        view.channels.len() == view.channel_count,
        view.channel_count > 0 <==> view.sample_count > 0,
        forall|c: int|
            0 <= c < view.channels.len() ==> (#[trigger] view.channels[c]).channel_index == c
                && view.channels[c].display_intensity@.in_unit_interval(),
{
    if view.complete() {
        lemma_line_text_single_line(view);
        assert forall|c: int| 0 <= c < view.channels.len() implies (
        #[trigger] view.channels[c]).channel_index == c
            && view.channels[c].display_intensity@.in_unit_interval() by {
            assert(view.channel_agrees(c));
            lemma_intensity_range(view.channels[c].loudness_db, view.floor);
        }
    }
}

/// Computes the duration of `sample_count` frames at `sample_rate` frames
/// per second, in microseconds.
pub fn duration_micros(sample_count: usize, sample_rate: u32) -> (micros: u128)
    requires
        sample_rate > 0,
    ensures
        micros == duration_micros_spec(sample_count as nat, sample_rate as nat),
{
    let frames: u128 = sample_count as u128;
    let rate: u128 = sample_rate as u128;
    (2_000_000 * frames + rate) / (2 * rate)
}

/// Measures one channel from its root mean square: the level in dBov and
/// the display intensity against the configured floor.
pub fn measure_channel<L: Fn(Rms) -> Decibels>(
    channel_index: usize,
    rms: Rms,
    config: &MeterConfig,
    log: &L,
) -> (measurement: ChannelMeasurement)
    requires
        forall|x: Rms| x.q31 > 0 ==> call_requires(*log, (x,)),
    ensures
        is_measurement(*log, config.floor(), channel_index as int, measurement),
        measurement.rms == rms,
        measurement.display_intensity@.in_unit_interval(),
        config.floor().millis <= measurement.loudness_db.millis,
        rms.q31 == 0 ==> measurement.loudness_db == config.floor()
            && measurement.display_intensity@.numerator == 0,
        rms.q31 <= FULL_SCALE_Q31 ==> measurement.loudness_db.millis <= 0,
        rms.q31 >= FULL_SCALE_Q31 ==> measurement.loudness_db.millis >= 0
            && measurement.display_intensity@.numerator
            == measurement.display_intensity@.denominator,
{
    let floor = config.floor_db();
    let loudness_db = to_decibels_overload(rms, floor, log);
    let display_intensity = scale_to_intensity(loudness_db, floor);
    ChannelMeasurement { channel_index, rms, loudness_db, display_intensity }
}

impl BufferReport {
    /// Every report is well formed.
    #[verifier::type_invariant]
    pub open spec fn checked(self) -> bool {
        self@.well_formed()
    }

    /// The initial report, which stands for "no buffer yet".
    pub fn empty() -> (report: BufferReport)
        ensures
            report@.is_initial(),
            report@.well_formed(),
    {
        BufferReport {
            format: SampleFormat {
                encoding: SampleEncoding::SignedInt16,
                channel_count: 0,
                sample_rate: 0,
            },
            config: MeterConfig::standard(),
            sample_count: 0,
            channel_count: 0,
            duration_micros: 0,
            channels: Vec::new(),
            rendered_text: String::new(),
        }
    }

    /// Whether this is the initial report.
    pub fn is_empty(&self) -> (b: bool)
        ensures
            b == self@.is_initial(),
            b == (self@.channel_count == 0),
            !b ==> self@.complete(),
            self@.well_formed(),
    {
        proof {
            use_type_invariant(self);
        }
        self.channel_count == 0
    }

    /// The format of the buffer. The initial report has a format without
    /// channels.
    pub fn format(&self) -> (format: SampleFormat)
        ensures
            format == self@.format,
    {
        self.format
    }

    /// The floor that the buffer was measured against.
    pub fn floor_db(&self) -> (floor: Decibels)
        ensures
            floor == self@.floor,
            floor.millis < 0,
    {
        self.config.floor_db()
    }

    /// The number of display levels that the bars were drawn for.
    pub fn level_count(&self) -> (count: usize)
        ensures
            count == self@.level_count,
            count >= 1,
    {
        self.config.level_count()
    }

    /// The number of samples per channel.
    pub fn sample_count(&self) -> (count: usize)
        ensures
            count == self@.sample_count,
    {
        self.sample_count
    }

    /// The number of channels, which is the number of measurements.
    pub fn channel_count(&self) -> (count: usize)
        ensures
            count == self@.channel_count,
            count == self@.channels.len(),
    {
        proof {
            use_type_invariant(self);
        }
        self.channel_count
    }

    /// The duration of the buffer in microseconds.
    pub fn duration_micros(&self) -> (micros: u128)
        ensures
            micros == self@.duration_micros,
    {
        self.duration_micros
    }

    /// The measurements, one per channel, in channel order.
    pub fn channels(&self) -> (channels: &Vec<ChannelMeasurement>)
        ensures
            channels@ == self@.channels,
            channels.len() == self@.channel_count,
            self@.well_formed(),
    {
        proof {
            use_type_invariant(self);
        }
        &self.channels
    }

    /// The measurement of one channel, if the report has that channel.
    pub fn channel(&self, index: usize) -> (measurement: Option<ChannelMeasurement>)
        ensures
            measurement.is_some() <==> index < self@.channel_count,
            measurement matches Some(m) ==> m == self@.channels[index as int] && m.channel_index
                == index && self@.channel_agrees(index as int),
    {
        proof {
            use_type_invariant(self);
        }
        if index < self.channels.len() {
            assert(self@.channel_agrees(index as int));
            Some(self.channels[index])
        } else {
            None
        }
    }

    /// The report line: one line of text, without a line break.
    pub fn rendered_text(&self) -> (text: &str)
        ensures
            text@ == self@.rendered_text,
            single_line(text@),
            self@.complete() ==> text@ == line_text(self@),
    {
        proof {
            use_type_invariant(self);
            lemma_well_formed_report(self@);
        }
        self.rendered_text.as_str()
    }
}

impl Clone for BufferReport {
    /// A copy that holds what the report holds.
    fn clone(&self) -> (copy: BufferReport)
        ensures
            copy@ == self@,
    {
        proof {
            use_type_invariant(self);
        }
        let mut channels: Vec<ChannelMeasurement> = Vec::new();
        let mut i: usize = 0;
        while i < self.channels.len()
            invariant
                i <= self.channels.len(),
                channels@ == self.channels@.take(i as int),
            decreases self.channels.len() - i,
        {
            channels.push(self.channels[i]);
            i += 1;
        }
        assert(channels@ =~= self.channels@);
        BufferReport {
            format: self.format,
            config: self.config,
            sample_count: self.sample_count,
            channel_count: self.channel_count,
            duration_micros: self.duration_micros,
            channels,
            rendered_text: self.rendered_text.clone(),
        }
    }
}

/// Builds the report of a buffer from the root mean square of each of its
/// channels: the level and intensity of each channel, the duration, and
/// the report line.
pub fn report_from_levels<L: Fn(Rms) -> Decibels>(
    format: &SampleFormat,
    sample_count: usize,
    levels: &Vec<Rms>,
    config: &MeterConfig,
    log: &L,
) -> (report: BufferReport)
    requires
        format.valid(),
        sample_count > 0,
        levels.len() == format.channel_count,
        forall|x: Rms| x.q31 > 0 ==> call_requires(*log, (x,)),
    ensures
        report@.complete(),
        report@.format == *format,
        report@.floor == config.floor(),
        report@.level_count == config.levels(),
        report@.sample_count == sample_count,
        forall|c: int|
            0 <= c < format.channel_count ==> (#[trigger] report@.channels[c]).rms == levels[c]
                && is_measurement(*log, config.floor(), c, report@.channels[c]),
{
    let channel_count: usize = format.channel_count as usize;
    let level_count: usize = config.level_count();
    let micros: u128 = duration_micros(sample_count, format.sample_rate);
    let mut text: String = header_line(sample_count, format.encoding, channel_count, micros);
    let mut channels: Vec<ChannelMeasurement> = Vec::new();
    let ghost header = text@;
    let mut c: usize = 0;
    while c < channel_count
        invariant
            c <= channel_count,
            channel_count == levels.len(),
            level_count == config.levels(),
            level_count >= 1,
            channels.len() == c,
            forall|x: Rms| x.q31 > 0 ==> call_requires(*log, (x,)),
            forall|k: int|
                0 <= k < c ==> (#[trigger] channels[k]).rms == levels[k] && is_measurement(
                    *log,
                    config.floor(),
                    k,
                    channels[k],
                ) && config.floor().millis <= channels[k].loudness_db.millis,
            text@ == header + channels_text(channels@, level_count as int),
        decreases channel_count - c,
    {
        let measurement = measure_channel(c, levels[c], config, log);
        let bar = horizontal_scale(measurement.display_intensity, level_count - 1);
        let ghost before = channels@;
        append_channel(&mut text, c, bar.as_str(), measurement.loudness_db);
        channels.push(measurement);
        proof {
            assert(channels@.drop_last() =~= before);
        }
        c += 1;
    }
    BufferReport {
        format: *format,
        config: *config,
        sample_count,
        channel_count,
        duration_micros: micros,
        channels,
        rendered_text: text,
    }
}

/// Every channel of a buffer of whole frames has as many samples as the
/// buffer has frames.
pub proof fn lemma_channel_len<T>(buffer: Seq<T>, channel_count: int, channel: int)
    requires
        channel_count >= 1,
        buffer.len() > 0,
        buffer.len() as int % channel_count == 0,
    ensures
        channel_of(buffer, channel_count, channel).len() == buffer.len() as int / channel_count,
        buffer.len() as int / channel_count >= 1,
{
    vstd::arithmetic::div_mod::lemma_fundamental_div_mod(buffer.len() as int, channel_count);
    let frames = buffer.len() as int / channel_count;
    assert(frames >= 1) by (nonlinear_arith)
        requires
            channel_count * frames > 0,
            channel_count >= 1,
    ;
}

/// What is measured of a channel depends on the samples of that channel
/// alone: two buffers that agree on a channel give it one root mean square.
pub proof fn lemma_channel_measured_alone(
    one: Seq<CanonicalSample>,
    other: Seq<CanonicalSample>,
    channel_count: int,
    channel: int,
    rms_of_one: nat,
    rms_of_other: nat,
)
    requires
        channel_of(one, channel_count, channel) == channel_of(other, channel_count, channel),
        channel_of(one, channel_count, channel).len() > 0,
        is_root_mean_square(channel_of(one, channel_count, channel), rms_of_one),
        is_root_mean_square(channel_of(other, channel_count, channel), rms_of_other),
    ensures
        rms_of_one == rms_of_other,
{
    lemma_root_mean_square_unique(
        channel_of(one, channel_count, channel),
        rms_of_one,
        rms_of_other,
    );
}

/// Processes one buffer: splits it into channels, measures the root mean
/// square of each channel, and builds the report from them.
pub fn process_input_buffer<L: Fn(Rms) -> Decibels>(
    buffer: &RawBuffer,
    format: &SampleFormat,
    config: &MeterConfig,
    log: &L,
) -> (report: BufferReport)
    requires
        buffer.matches_format(*format),
        forall|x: Rms| x.q31 > 0 ==> call_requires(*log, (x,)),
    ensures
        report@.complete(),
        report@.format == *format,
        report@.floor == config.floor(),
        report@.level_count == config.levels(),
        report@.sample_count == buffer.samples().len() / (format.channel_count as nat),
        forall|c: int|
            0 <= c < format.channel_count ==> is_root_mean_square(
                channel_of(buffer.canonical(), format.channel_count as int, c),
                (#[trigger] report@.channels[c]).rms.q31 as nat,
            ) && is_measurement(*log, config.floor(), c, report@.channels[c])
                && report@.channels[c].rms.q31 <= FULL_SCALE_Q31
                && report@.channels[c].loudness_db.millis <= 0 && (report@.channels[c].rms.q31 == 0
                <==> silent(channel_of(buffer.canonical(), format.channel_count as int, c))),
{
    let channel_count: usize = format.channel_count as usize;
    let samples: Vec<CanonicalSample> = buffer.to_canonical();
    let sample_count: usize = samples.len() / channel_count;
    let channels: Vec<Vec<CanonicalSample>> = deinterleave(&samples, channel_count);
    let mut levels: Vec<Rms> = Vec::new();
    let mut c: usize = 0;
    while c < channel_count
        invariant
            c <= channel_count,
            channel_count >= 1,
            channels.len() == channel_count,
            samples@.len() > 0,
            samples@.len() as int % (channel_count as int) == 0,
            levels.len() == c,
            forall|k: int|
                0 <= k < channel_count ==> (#[trigger] channels[k])@ == channel_of(
                    samples@,
                    channel_count as int,
                    k,
                ),
            forall|k: int|
                0 <= k < c ==> is_root_mean_square(
                    channel_of(samples@, channel_count as int, k),
                    (#[trigger] levels[k]).q31 as nat,
                ) && levels[k].q31 <= FULL_SCALE_Q31 && (levels[k].q31 == 0 <==> silent(
                    channel_of(samples@, channel_count as int, k),
                )),
        decreases channel_count - c,
    {
        proof {
            lemma_channel_len(samples@, channel_count as int, c as int);
        }
        let rms = root_mean_square(&channels[c]);
        levels.push(rms);
        c += 1;
    }
    proof {
        lemma_channel_len(samples@, channel_count as int, 0);
    }
    report_from_levels(format, sample_count, &levels, config, log)
}

} // verus!
