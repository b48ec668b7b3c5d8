//! Turning the machine off, restarting it and putting it to sleep.

use vstd::prelude::*;

verus! {

/// What the machine can be told.
#[derive(Clone, Copy, Debug, PartialEq, Eq, Structural)]
pub enum PowerAction {
    Reboot,
    PowerOff,
    Suspend,
}

/// An action, as the launcher offers it.
#[derive(Debug)]
pub struct ActionItem {
    pub id: String,
    pub name: String,
    pub description: String,
    pub terms: Vec<String>,
    pub action: PowerAction,
}

/// An [`ActionItem`] as a value.
#[verifier::ext_equal]
pub struct ActionView {
    pub id: Seq<char>,
    pub name: Seq<char>,
    pub description: Seq<char>,
    pub terms: Seq<Seq<char>>,
    pub action: PowerAction,
}

impl View for ActionItem {
    type V = ActionView;

    open spec fn view(&self) -> ActionView {
        ActionView {
            id: self.id@,
            name: self.name@,
            description: self.description@,
            terms: crate::text::views(self.terms@),
            action: self.action,
        }
    }
}

/// How the launcher offers an action.
pub open spec fn offered(action: PowerAction) -> ActionView {
    match action {
        PowerAction::Reboot => ActionView {
            id: "reboot"@,
            name: "Reboot"@,
            description: "Restart the system"@,
            terms: seq!["restart"@, "reboot"@],
            action,
        },
        PowerAction::PowerOff => ActionView {
            id: "power-off"@,
            name: "Power Off"@,
            description: "Shut down the system"@,
            terms: seq!["shutdown"@, "poweroff"@, "halt"@],
            action,
        },
        PowerAction::Suspend => ActionView {
            id: "suspend"@,
            name: "Suspend"@,
            description: "Suspend the system"@,
            terms: seq!["sleep"@, "suspend"@],
            action,
        },
    }
}

fn offer(action: PowerAction) -> (r: ActionItem)
    ensures
        r@ == offered(action),
{
    let mut terms: Vec<String> = Vec::new();
    let (id, name, description) = match action {
        PowerAction::Reboot => {
            terms.push("restart".to_owned());
            terms.push("reboot".to_owned());
            ("reboot", "Reboot", "Restart the system")
        },
        PowerAction::PowerOff => {
            terms.push("shutdown".to_owned());
            terms.push("poweroff".to_owned());
            terms.push("halt".to_owned());
            ("power-off", "Power Off", "Shut down the system")
        },
        PowerAction::Suspend => {
            terms.push("sleep".to_owned());
            terms.push("suspend".to_owned());
            ("suspend", "Suspend", "Suspend the system")
        },
    };
    let item = ActionItem {
        id: id.to_owned(),
        name: name.to_owned(),
        description: description.to_owned(),
        terms,
        action,
    };
    assert(item@ =~= offered(action));
    item
}

/// What the launcher offers.
pub fn get_items() -> (r: Vec<ActionItem>)
    ensures
        r@.len() == 3,
        r@[0]@ == offered(PowerAction::Reboot),
        r@[1]@ == offered(PowerAction::PowerOff),
        r@[2]@ == offered(PowerAction::Suspend),
{
    let mut items: Vec<ActionItem> = Vec::new();
    items.push(offer(PowerAction::Reboot));
    items.push(offer(PowerAction::PowerOff));
    items.push(offer(PowerAction::Suspend));
    items
}

/// What picking an action leads to.
#[derive(Debug)]
pub enum Picked {
    /// Ask first.
    Confirm { prompt: String },
    /// Do it, and close the launcher.
    Perform { action: PowerAction },
}

/// Asks before anything that ends the session; suspending does not.
pub fn pick(action: PowerAction) -> (r: Picked)
    ensures
        match action {
            PowerAction::Reboot => r matches Picked::Confirm { prompt } && prompt@ == "Reboot?"@,
            PowerAction::PowerOff => r matches Picked::Confirm { prompt } && prompt@
                == "Power off?"@,
            PowerAction::Suspend => r matches Picked::Perform { action: done } && done == action,
        },
{
    match action {
        PowerAction::Reboot => Picked::Confirm { prompt: "Reboot?".to_owned() },
        PowerAction::PowerOff => Picked::Confirm { prompt: "Power off?".to_owned() },
        PowerAction::Suspend => Picked::Perform { action },
    }
}

/// How a prompt was answered.
#[derive(Clone, Copy, Debug, PartialEq, Eq, Structural)]
pub enum ConfirmationEvent {
    Confirm,
    Dismiss,
}

/// What answering the prompt leads to: the action, or nothing but the prompt going
/// away.
pub fn answer(action: PowerAction, event: ConfirmationEvent) -> (r: Option<PowerAction>)
    ensures
        r == (match event {
            ConfirmationEvent::Confirm => Some(action),
            ConfirmationEvent::Dismiss => None,
        }),
{
    match event {
        ConfirmationEvent::Confirm => Some(action),
        ConfirmationEvent::Dismiss => None,
    }
}

/// What is offered does what it says: each entry carries its action, is found by what people
/// call it, and has a name of its own.
pub proof fn law_offers_carry_their_action(action: PowerAction, other: PowerAction)
    ensures
        offered(action).action == action,
        action != other ==> offered(action).id != offered(other).id,
        action != other ==> offered(action).name != offered(other).name,
        offered(PowerAction::Reboot).terms.contains("restart"@),
        offered(PowerAction::Reboot).terms.contains("reboot"@),
        offered(PowerAction::PowerOff).terms.contains("shutdown"@),
        offered(PowerAction::PowerOff).terms.contains("poweroff"@),
        offered(PowerAction::PowerOff).terms.contains("halt"@),
        offered(PowerAction::Suspend).terms.contains("sleep"@),
        offered(PowerAction::Suspend).terms.contains("suspend"@),
{
    reveal_strlit("reboot");
    reveal_strlit("power-off");
    reveal_strlit("suspend");
    reveal_strlit("Reboot");
    reveal_strlit("Power Off");
    reveal_strlit("Suspend");
    assert("reboot"@.len() == 6 && "power-off"@.len() == 9 && "suspend"@.len() == 7);
    assert("Reboot"@.len() == 6 && "Power Off"@.len() == 9 && "Suspend"@.len() == 7);
    assert(offered(PowerAction::Reboot).terms[0] == "restart"@);
    assert(offered(PowerAction::Reboot).terms[1] == "reboot"@);
    assert(offered(PowerAction::PowerOff).terms[0] == "shutdown"@);
    assert(offered(PowerAction::PowerOff).terms[1] == "poweroff"@);
    assert(offered(PowerAction::PowerOff).terms[2] == "halt"@);
    assert(offered(PowerAction::Suspend).terms[0] == "sleep"@);
    assert(offered(PowerAction::Suspend).terms[1] == "suspend"@);
}

} // verus!
