//! A rendering context without a screen: what is asked for on the way to it,
//! and what is given back where a step fails.

use vstd::prelude::*;

use crate::text;

verus! {

pub const EGL_OPENGL_ES_API: u32 = 0x30A0;

pub const EGL_OPENGL_API: u32 = 0x30A2;

pub const EGL_NONE: i32 = 0x3038;

pub const EGL_HEIGHT: i32 = 0x3056;

pub const EGL_WIDTH: i32 = 0x3057;

pub const EGL_RENDERABLE_TYPE: i32 = 0x3040;

pub const EGL_SURFACE_TYPE: i32 = 0x3033;

pub const EGL_RED_SIZE: i32 = 0x3024;

pub const EGL_GREEN_SIZE: i32 = 0x3023;

pub const EGL_BLUE_SIZE: i32 = 0x3022;

pub const EGL_ALPHA_SIZE: i32 = 0x3021;

pub const EGL_DEPTH_SIZE: i32 = 0x3025;

pub const EGL_OPENGL_ES2_BIT: i32 = 0x0004;

pub const EGL_OPENGL_BIT: i32 = 0x0008;

pub const EGL_PBUFFER_BIT: i32 = 0x0001;

pub const EGL_CONTEXT_CLIENT_VERSION: i32 = 0x3098;

/// The pixel format of the buffer surface.
pub const GBM_FORMAT: u32 = 0x34325258;

pub const GBM_BO_USE_RENDERING: u32 = 2;

/// The steps to a context, in the order in which they are taken.
#[derive(Debug, Clone, Copy, PartialEq, Eq, Structural)]
pub enum CreateStep {
    GbmDevice,
    GbmSurface,
    Display,
    Initialize,
    BindApi,
    ChooseConfig,
    CreateContext,
    CreateSurface,
    MakeCurrent,
    Ready,
}

pub open spec fn step_place(step: CreateStep) -> int {
    match step {
        CreateStep::GbmDevice => 0,
        CreateStep::GbmSurface => 1,
        CreateStep::Display => 2,
        CreateStep::Initialize => 3,
        CreateStep::BindApi => 4,
        CreateStep::ChooseConfig => 5,
        CreateStep::CreateContext => 6,
        CreateStep::CreateSurface => 7,
        CreateStep::MakeCurrent => 8,
        CreateStep::Ready => 9,
    }
}

pub open spec fn step_failure(step: CreateStep) -> Seq<char> {
    match step {
        CreateStep::GbmDevice => "gbm_create_device failed"@,
        CreateStep::GbmSurface => "gbm_surface_create failed"@,
        CreateStep::Display => "eglGetDisplay failed"@,
        CreateStep::Initialize => "eglInitialize failed"@,
        CreateStep::BindApi => "eglBindAPI failed"@,
        CreateStep::ChooseConfig => "eglChooseConfig failed"@,
        CreateStep::CreateContext => "eglCreateContext failed"@,
        CreateStep::CreateSurface => "eglCreatePbufferSurface failed"@,
        CreateStep::MakeCurrent => "eglMakeCurrent failed"@,
        CreateStep::Ready => ""@,
    }
}

/// What can be given back.
#[derive(Debug, Clone, Copy, PartialEq, Eq, Structural)]
pub enum Release {
    Context,
    Display,
    GbmSurface,
    GbmDevice,
}

/// The step by which a thing is had.
pub open spec fn had_from(thing: Release) -> CreateStep {
    match thing {
        Release::GbmDevice => CreateStep::GbmDevice,
        Release::GbmSurface => CreateStep::GbmSurface,
        Release::Display => CreateStep::Display,
        Release::Context => CreateStep::CreateContext,
    }
}

/// What is given back where a step fails: all that the steps before it have got,
/// the last first. Ending the display ends what was made on it.
pub open spec fn release_list(failed: CreateStep) -> Seq<Release> {
    let n = step_place(failed);
    if n <= 0 {
        Seq::empty()
    } else if n <= 1 {
        seq![Release::GbmDevice]
    } else if n <= 2 {
        seq![Release::GbmSurface, Release::GbmDevice]
    } else if n <= 6 {
        seq![Release::Display, Release::GbmSurface, Release::GbmDevice]
    } else {
        seq![Release::Context, Release::Display, Release::GbmSurface, Release::GbmDevice]
    }
}

/// What a step comes to: the next one, or the end with what to give back and
/// why.
#[derive(Debug)]
pub enum CreateOutcome {
    Next { step: CreateStep },
    Failed { release: Vec<Release>, why: &'static str },
}

fn releases(failed: CreateStep) -> (list: Vec<Release>)
    ensures
        list@ == release_list(failed),
{
    let mut list: Vec<Release> = Vec::new();
    match failed {
        CreateStep::CreateSurface => list.push(Release::Context),
        CreateStep::MakeCurrent => list.push(Release::Context),
        CreateStep::Ready => list.push(Release::Context),
        _ => {},
    }
    match failed {
        CreateStep::GbmDevice => {},
        CreateStep::GbmSurface => {},
        CreateStep::Display => {},
        _ => list.push(Release::Display),
    }
    match failed {
        CreateStep::GbmDevice => {},
        CreateStep::GbmSurface => {},
        _ => list.push(Release::GbmSurface),
    }
    match failed {
        CreateStep::GbmDevice => {},
        _ => list.push(Release::GbmDevice),
    }
    assert(list@ =~= release_list(failed));
    list
}

fn failure(step: CreateStep) -> (why: &'static str)
    ensures
        why@ == step_failure(step),
{
    match step {
        CreateStep::GbmDevice => "gbm_create_device failed",
        CreateStep::GbmSurface => "gbm_surface_create failed",
        CreateStep::Display => "eglGetDisplay failed",
        CreateStep::Initialize => "eglInitialize failed",
        CreateStep::BindApi => "eglBindAPI failed",
        CreateStep::ChooseConfig => "eglChooseConfig failed",
        CreateStep::CreateContext => "eglCreateContext failed",
        CreateStep::CreateSurface => "eglCreatePbufferSurface failed",
        CreateStep::MakeCurrent => "eglMakeCurrent failed",
        CreateStep::Ready => "",
    }
}

/// What a step that went well or not comes to.
pub fn create_step(step: CreateStep, succeeded: bool) -> (outcome: CreateOutcome)
    requires
        step != CreateStep::Ready,
    ensures
        match outcome {
            CreateOutcome::Next { step: next } => succeeded && step_place(next) == step_place(step)
                + 1,
            CreateOutcome::Failed { release, why } => !succeeded && release@ == release_list(step)
                && why@ == step_failure(step),
        },
{
    if !succeeded {
        return CreateOutcome::Failed { release: releases(step), why: failure(step) };
    }
    let next = match step {
        CreateStep::GbmDevice => CreateStep::GbmSurface,
        CreateStep::GbmSurface => CreateStep::Display,
        CreateStep::Display => CreateStep::Initialize,
        CreateStep::Initialize => CreateStep::BindApi,
        CreateStep::BindApi => CreateStep::ChooseConfig,
        CreateStep::ChooseConfig => CreateStep::CreateContext,
        CreateStep::CreateContext => CreateStep::CreateSurface,
        CreateStep::CreateSurface => CreateStep::MakeCurrent,
        CreateStep::MakeCurrent => CreateStep::Ready,
        CreateStep::Ready => CreateStep::Ready,
    };
    CreateOutcome::Next { step: next }
}

/// A failed step gives back just what was had before it, each thing once, and
/// each before what it was made from.
pub proof fn law_nothing_kept(failed: CreateStep, thing: Release)
    ensures
        release_list(failed).contains(thing) <==> step_place(had_from(thing)) < step_place(failed),
        release_list(failed).no_duplicates(),
        forall|i: int, j: int|
            0 <= i < j < release_list(failed).len() ==> step_place(
                had_from(#[trigger] release_list(failed)[i]),
            ) > step_place(had_from(#[trigger] release_list(failed)[j])),
{
    let list = release_list(failed);
    let n = step_place(failed);
    if n >= 1 {
        assert(list[list.len() - 1] == Release::GbmDevice);
    }
    if n >= 2 {
        assert(list[list.len() - 2] == Release::GbmSurface);
    }
    if n >= 3 {
        assert(list[list.len() - 3] == Release::Display);
    }
    if n >= 7 {
        assert(list[0] == Release::Context);
    }
}

/// The rendering interface for a kind of context.
pub open spec fn api_of(context_type: u32) -> u32 {
    if context_type == 1 {
        EGL_OPENGL_API
    } else {
        EGL_OPENGL_ES_API
    }
}

pub fn api_for(context_type: u32) -> (api: u32)
    ensures
        api == api_of(context_type),
{
    if context_type == 1 {
        EGL_OPENGL_API
    } else {
        EGL_OPENGL_ES_API
    }
}

pub open spec fn config_list(context_type: u32) -> Seq<i32> {
    seq![
        EGL_SURFACE_TYPE,
        EGL_PBUFFER_BIT,
        EGL_RENDERABLE_TYPE,
        if context_type == 1 {
            EGL_OPENGL_BIT
        } else {
            EGL_OPENGL_ES2_BIT
        },
        EGL_RED_SIZE,
        8,
        EGL_GREEN_SIZE,
        8,
        EGL_BLUE_SIZE,
        8,
        EGL_ALPHA_SIZE,
        8,
        EGL_DEPTH_SIZE,
        24,
        EGL_NONE,
    ]
}

/// What a configuration has to have: a colour and a depth buffer, drawn to
/// memory.
pub fn config_attribs(context_type: u32) -> (attribs: Vec<i32>)
    ensures
        attribs@ == config_list(context_type),
{
    let renderable: i32 = if context_type == 1 {
        EGL_OPENGL_BIT
    } else {
        EGL_OPENGL_ES2_BIT
    };
    let attribs = vec![
        EGL_SURFACE_TYPE,
        EGL_PBUFFER_BIT,
        EGL_RENDERABLE_TYPE,
        renderable,
        EGL_RED_SIZE,
        8,
        EGL_GREEN_SIZE,
        8,
        EGL_BLUE_SIZE,
        8,
        EGL_ALPHA_SIZE,
        8,
        EGL_DEPTH_SIZE,
        24,
        EGL_NONE,
    ];
    assert(attribs@ =~= config_list(context_type));
    attribs
}

/// What a context is asked to be: of a version that goes by its type, or as it
/// comes.
pub open spec fn context_list(context_type: u32) -> Seq<i32> {
    if context_type == 4 {
        seq![EGL_CONTEXT_CLIENT_VERSION, 3, EGL_NONE]
    } else if context_type == 2 || context_type == 5 {
        seq![EGL_CONTEXT_CLIENT_VERSION, 2, EGL_NONE]
    } else {
        seq![EGL_NONE]
    }
}

pub fn context_attribs(context_type: u32) -> (attribs: Vec<i32>)
    ensures
        attribs@ == context_list(context_type),
{
    if context_type == 4 {
        let attribs = vec![EGL_CONTEXT_CLIENT_VERSION, 3, EGL_NONE];
        assert(attribs@ =~= seq![EGL_CONTEXT_CLIENT_VERSION, 3, EGL_NONE]);
        attribs
    } else if context_type == 2 || context_type == 5 {
        let attribs = vec![EGL_CONTEXT_CLIENT_VERSION, 2, EGL_NONE];
        assert(attribs@ =~= seq![EGL_CONTEXT_CLIENT_VERSION, 2, EGL_NONE]);
        attribs
    } else {
        let attribs = vec![EGL_NONE];
        assert(attribs@ =~= seq![EGL_NONE]);
        attribs
    }
}

/// The size of the surface that is drawn to.
pub open spec fn surface_list(width: i32, height: i32) -> Seq<i32> {
    seq![EGL_WIDTH, width, EGL_HEIGHT, height, EGL_NONE]
}

pub fn surface_attribs(width: i32, height: i32) -> (attribs: Vec<i32>)
    ensures
        attribs@ == surface_list(width, height),
{
    let attribs = vec![EGL_WIDTH, width, EGL_HEIGHT, height, EGL_NONE];
    assert(attribs@ =~= seq![EGL_WIDTH, width, EGL_HEIGHT, height, EGL_NONE]);
    attribs
}

/// How an error number of the rendering interface is told.
pub fn get_error_str(code: u32) -> (why: String)
    ensures
        why@ == "EGL error: 0x"@ + text::hexadecimal(code as nat),
{
    let mut why = "EGL error: 0x".to_owned();
    text::push_hexadecimal(&mut why, code as u64);
    why
}

/// The size of a rendering context.
#[derive(Debug, Clone, Copy)]
pub struct HwRenderContext {
    pub width: u32,
    pub height: u32,
}

impl HwRenderContext {
    /// The framebuffer that is drawn to: always the surface's own.
    pub fn get_framebuffer(&self) -> (id: u32)
        ensures
            id == 0,
    {
        0
    }
}

} // verus!
