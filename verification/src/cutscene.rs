//! Cutscene sequencing: a builder that collects the scenes of a dialog,
//! and the player's navigation between them. Widget layout and drawing
//! live with the windowing shell; what is verified here is the scene list
//! and how the player's position moves through it.

use vstd::prelude::*;

verus! {

/// Who is speaking in a scene.
#[derive(Clone, Debug)]
pub enum Layout {
    PlayerSpeaking,
    BossSpeaking,
    /// A named extra character.
    Extra(String),
}

/// One scene: a speaker layout and the spoken message.
#[derive(Clone, Debug)]
pub struct Scene {
    pub layout: Layout,
    pub msg: String,
}

/// Collects the scenes of one cutscene in order.
#[derive(Clone, Debug)]
pub struct CutsceneBuilder {
    pub name: String,
    pub scenes: Vec<Scene>,
}

/// What the player can click.
#[derive(Clone, Copy, PartialEq, Eq, Structural, Debug)]
pub enum CutsceneAction {
    Quit,
    Back,
    Next,
    Skip,
    Start,
}

/// Whether the cutscene stays up after an action.
#[derive(Clone, Copy, PartialEq, Eq, Structural, Debug)]
pub enum Transition {
    Keep,
    Pop,
}

/// Steps through the scenes of a built cutscene; position
/// `scenes.len()` is the final task panel.
#[derive(Clone, Debug)]
pub struct CutscenePlayer {
    pub name: String,
    pub scenes: Vec<Scene>,
    pub idx: usize,
}

impl CutsceneBuilder {
    /// An empty cutscene with a title.
    pub fn new(name: String) -> (b: CutsceneBuilder)
        ensures
            b.name == name,
            b.scenes@ =~= Seq::<Scene>::empty(),
    {
        CutsceneBuilder { name, scenes: Vec::new() }
    }

    /// Appends a scene spoken by the player character.
    pub fn player(self, msg: String) -> (b: CutsceneBuilder)
        ensures
            b.name == self.name,
            b.scenes@ == self.scenes@.push(Scene { layout: Layout::PlayerSpeaking, msg }),
    {
        let mut scenes = self.scenes;
        scenes.push(Scene { layout: Layout::PlayerSpeaking, msg });
        CutsceneBuilder { name: self.name, scenes }
    }

    /// Appends a scene spoken by the boss character.
    pub fn boss(self, msg: String) -> (b: CutsceneBuilder)
        ensures
            b.name == self.name,
            b.scenes@ == self.scenes@.push(Scene { layout: Layout::BossSpeaking, msg }),
    {
        let mut scenes = self.scenes;
        scenes.push(Scene { layout: Layout::BossSpeaking, msg });
        CutsceneBuilder { name: self.name, scenes }
    }

    /// Appends a scene spoken by a named extra character.
    pub fn extra(self, character: String, msg: String) -> (b: CutsceneBuilder)
        ensures
            b.name == self.name,
            b.scenes@ == self.scenes@.push(Scene { layout: Layout::Extra(character), msg }),
    {
        let mut scenes = self.scenes;
        scenes.push(Scene { layout: Layout::Extra(character), msg });
        CutsceneBuilder { name: self.name, scenes }
    }

    /// Finishes the cutscene: a player positioned at the first scene.
    pub fn build(self) -> (p: CutscenePlayer)
        ensures
            p.name == self.name,
            p.scenes@ == self.scenes@,
            p.idx == 0,
    {
        CutscenePlayer { name: self.name, scenes: self.scenes, idx: 0 }
    }
}

impl CutscenePlayer {
    /// The position never runs past the task panel.
    pub open spec fn wf(self) -> bool {
        self.idx <= self.scenes@.len()
    }

    /// One navigation step. `Back` is only offered after the first scene,
    /// and `Next` only before the task panel, as the panel shows them.
    pub fn event(&mut self, action: CutsceneAction) -> (t: Transition)
        requires
            old(self).wf(),
            action == CutsceneAction::Back ==> old(self).idx > 0,
            action == CutsceneAction::Next ==> old(self).idx < old(self).scenes@.len(),
        ensures
            final(self).wf(),
            final(self).name == old(self).name,
            final(self).scenes == old(self).scenes,
            (t == Transition::Pop <==> (action == CutsceneAction::Quit || action
                == CutsceneAction::Start)),
            final(self).idx == match action {
                CutsceneAction::Quit => old(self).idx as int,
                CutsceneAction::Back => old(self).idx - 1,
                CutsceneAction::Next => old(self).idx + 1,
                CutsceneAction::Skip => old(self).scenes@.len() as int,
                CutsceneAction::Start => old(self).idx as int,
            },
    {
        match action {
            CutsceneAction::Quit => Transition::Pop,
            CutsceneAction::Back => {
                self.idx = self.idx - 1;
                Transition::Keep
            },
            CutsceneAction::Next => {
                let n = self.scenes.len();
                assert(self.idx < n);
                self.idx = self.idx + 1;
                Transition::Keep
            },
            CutsceneAction::Skip => {
                self.idx = self.scenes.len();
                Transition::Keep
            },
            CutsceneAction::Start => Transition::Pop,
        }
    }
}

} // verus!
