//! The icons of the interface.

use vstd::prelude::*;

verus! {

/// An icon.
#[derive(Clone, Copy, Debug, PartialEq, Eq, Structural)]
pub enum IconName {
    AppWindow,
    ArrowLeft,
    Asterisk,
    Bluetooth,
    BrandGoogle,
    BrandWikipedia,
    BrandYoutube,
    Broadcast,
    BroadcastOff,
    Clipboard,
    Code,
    CircleCheckFilled,
    DeviceDesktop,
    DeviceGamepad,
    DeviceSpeaker,
    DeviceSpeakerOff,
    FileText,
    FileUnknown,
    Headphones,
    HeadphonesOff,
    Headset,
    HeadsetOff,
    Keyboard,
    Link,
    Loader,
    Lock,
    MessageChatbot,
    Microphone,
    MicrophoneOff,
    Mouse,
    Network,
    Phone,
    Photo,
    Printer,
    Search,
    StarFilled,
    Volume,
    VolumeOff,
    Wifi,
}

impl IconName {
    /// What the icon's file is called.
    pub open spec fn file_name(self) -> Seq<char> {
        match self {
            IconName::AppWindow => "app-window"@,
            IconName::ArrowLeft => "arrow-left"@,
            IconName::Asterisk => "asterisk"@,
            IconName::Bluetooth => "bluetooth"@,
            IconName::BrandGoogle => "brand-google"@,
            IconName::BrandWikipedia => "brand-wikipedia"@,
            IconName::BrandYoutube => "brand-youtube"@,
            IconName::Broadcast => "broadcast"@,
            IconName::BroadcastOff => "broadcast-off"@,
            IconName::Clipboard => "clipboard"@,
            IconName::Code => "code"@,
            IconName::CircleCheckFilled => "circle-check-filled"@,
            IconName::DeviceDesktop => "device-desktop"@,
            IconName::DeviceGamepad => "device-gamepad"@,
            IconName::DeviceSpeaker => "device-speaker"@,
            IconName::DeviceSpeakerOff => "device-speaker-off"@,
            IconName::FileText => "file-text"@,
            IconName::FileUnknown => "file-unknown"@,
            IconName::Headphones => "headphones"@,
            IconName::HeadphonesOff => "headphones-off"@,
            IconName::Headset => "headset"@,
            IconName::HeadsetOff => "headset-off"@,
            IconName::Keyboard => "keyboard"@,
            IconName::Link => "link"@,
            IconName::Loader => "loader-2"@,
            IconName::Lock => "lock"@,
            IconName::MessageChatbot => "message-chatbot"@,
            IconName::Microphone => "microphone"@,
            IconName::MicrophoneOff => "microphone-off"@,
            IconName::Mouse => "mouse"@,
            IconName::Network => "network"@,
            IconName::Phone => "phone"@,
            IconName::Photo => "photo"@,
            IconName::Printer => "printer"@,
            IconName::Search => "search"@,
            IconName::StarFilled => "star-filled"@,
            IconName::Volume => "volume"@,
            IconName::VolumeOff => "volume-off"@,
            IconName::Wifi => "wifi"@,
        }
    }

    /// Where the icon is among the assets, as a text.
    pub open spec fn path_text(self) -> Seq<char> {
        "assets/icons/"@ + self.file_name() + ".svg"@
    }

    /// What tells the files apart: how long a name is, and some of its characters.
    spec fn mark(self) -> (int, char, char) {
        match self {
            IconName::AppWindow => (10, 'a', 'o'),
            IconName::ArrowLeft => (10, 'a', 'f'),
            IconName::Asterisk => (8, 'a', 's'),
            IconName::Bluetooth => (9, 'b', 't'),
            IconName::BrandGoogle => (12, 'b', 'l'),
            IconName::BrandWikipedia => (15, 'b', 'i'),
            IconName::BrandYoutube => (13, 'b', 'b'),
            IconName::Broadcast => (9, 'b', 's'),
            IconName::BroadcastOff => (13, 'b', 'f'),
            IconName::Clipboard => (9, 'c', 'r'),
            IconName::Code => (4, 'c', 'd'),
            IconName::CircleCheckFilled => (19, 'c', 'e'),
            IconName::DeviceDesktop => (14, 'd', 'o'),
            IconName::DeviceGamepad => (14, 'd', 'a'),
            IconName::DeviceSpeaker => (14, 'd', 'e'),
            IconName::DeviceSpeakerOff => (18, 'd', 'f'),
            IconName::FileText => (9, 'f', 'x'),
            IconName::FileUnknown => (12, 'f', 'w'),
            IconName::Headphones => (10, 'h', 'e'),
            IconName::HeadphonesOff => (14, 'h', 'f'),
            IconName::Headset => (7, 'h', 'e'),
            IconName::HeadsetOff => (11, 'h', 'f'),
            IconName::Keyboard => (8, 'k', 'r'),
            IconName::Link => (4, 'l', 'n'),
            IconName::Loader => (8, 'l', '-'),
            IconName::Lock => (4, 'l', 'c'),
            IconName::MessageChatbot => (15, 'm', 'o'),
            IconName::Microphone => (10, 'm', 'n'),
            IconName::MicrophoneOff => (14, 'm', 'f'),
            IconName::Mouse => (5, 'm', 's'),
            IconName::Network => (7, 'n', 'r'),
            IconName::Phone => (5, 'p', 'n'),
            IconName::Photo => (5, 'p', 't'),
            IconName::Printer => (7, 'p', 'e'),
            IconName::Search => (6, 's', 'c'),
            IconName::StarFilled => (11, 's', 'e'),
            IconName::Volume => (6, 'v', 'm'),
            IconName::VolumeOff => (10, 'v', 'f'),
            IconName::Wifi => (4, 'w', 'f'),
        }
    }

    proof fn lemma_mark(self)
        ensures
            self.file_name().len() >= 4,
            (self.file_name().len() as int, self.file_name()[0], self.file_name()[self.file_name().len() - 2]) == self.mark(),
    {
        match self {
            IconName::AppWindow => {
                reveal_strlit("app-window");
            },
            IconName::ArrowLeft => {
                reveal_strlit("arrow-left");
            },
            IconName::Asterisk => {
                reveal_strlit("asterisk");
            },
            IconName::Bluetooth => {
                reveal_strlit("bluetooth");
            },
            IconName::BrandGoogle => {
                reveal_strlit("brand-google");
            },
            IconName::BrandWikipedia => {
                reveal_strlit("brand-wikipedia");
            },
            IconName::BrandYoutube => {
                reveal_strlit("brand-youtube");
            },
            IconName::Broadcast => {
                reveal_strlit("broadcast");
            },
            IconName::BroadcastOff => {
                reveal_strlit("broadcast-off");
            },
            IconName::Clipboard => {
                reveal_strlit("clipboard");
            },
            IconName::Code => {
                reveal_strlit("code");
            },
            IconName::CircleCheckFilled => {
                reveal_strlit("circle-check-filled");
            },
            IconName::DeviceDesktop => {
                reveal_strlit("device-desktop");
            },
            IconName::DeviceGamepad => {
                reveal_strlit("device-gamepad");
            },
            IconName::DeviceSpeaker => {
                reveal_strlit("device-speaker");
            },
            IconName::DeviceSpeakerOff => {
                reveal_strlit("device-speaker-off");
            },
            IconName::FileText => {
                reveal_strlit("file-text");
            },
            IconName::FileUnknown => {
                reveal_strlit("file-unknown");
            },
            IconName::Headphones => {
                reveal_strlit("headphones");
            },
            IconName::HeadphonesOff => {
                reveal_strlit("headphones-off");
            },
            IconName::Headset => {
                reveal_strlit("headset");
            },
            IconName::HeadsetOff => {
                reveal_strlit("headset-off");
            },
            IconName::Keyboard => {
                reveal_strlit("keyboard");
            },
            IconName::Link => {
                reveal_strlit("link");
            },
            IconName::Loader => {
                reveal_strlit("loader-2");
            },
            IconName::Lock => {
                reveal_strlit("lock");
            },
            IconName::MessageChatbot => {
                reveal_strlit("message-chatbot");
            },
            IconName::Microphone => {
                reveal_strlit("microphone");
            },
            IconName::MicrophoneOff => {
                reveal_strlit("microphone-off");
            },
            IconName::Mouse => {
                reveal_strlit("mouse");
            },
            IconName::Network => {
                reveal_strlit("network");
            },
            IconName::Phone => {
                reveal_strlit("phone");
            },
            IconName::Photo => {
                reveal_strlit("photo");
            },
            IconName::Printer => {
                reveal_strlit("printer");
            },
            IconName::Search => {
                reveal_strlit("search");
            },
            IconName::StarFilled => {
                reveal_strlit("star-filled");
            },
            IconName::Volume => {
                reveal_strlit("volume");
            },
            IconName::VolumeOff => {
                reveal_strlit("volume-off");
            },
            IconName::Wifi => {
                reveal_strlit("wifi");
            },
        }
    }

    /// No two icons share a file, and all of them are among the assets.
    pub proof fn law_files_differ(self, other: IconName)
        requires
            self != other,
        ensures
            self.path_text() != other.path_text(),
            "assets/icons/"@.is_prefix_of(self.path_text()),
            ".svg"@.is_suffix_of(self.path_text()),
    {
        self.lemma_mark();
        other.lemma_mark();
        let a = self.path_text();
        let b = other.path_text();
        let head = "assets/icons/"@.len() as int;
        let tail = ".svg"@.len() as int;
        assert(a.subrange(head, a.len() - tail) =~= self.file_name());
        assert(b.subrange(head, b.len() - tail) =~= other.file_name());
        assert(self.mark() != other.mark());
    }

    /// Where the icon is among the assets.
    pub fn path(self) -> (r: String)
        ensures
            r@ == self.path_text(),
    {
        let name = match self {
            IconName::AppWindow => "app-window",
            IconName::ArrowLeft => "arrow-left",
            IconName::Asterisk => "asterisk",
            IconName::Bluetooth => "bluetooth",
            IconName::BrandGoogle => "brand-google",
            IconName::BrandWikipedia => "brand-wikipedia",
            IconName::BrandYoutube => "brand-youtube",
            IconName::Broadcast => "broadcast",
            IconName::BroadcastOff => "broadcast-off",
            IconName::Clipboard => "clipboard",
            IconName::Code => "code",
            IconName::CircleCheckFilled => "circle-check-filled",
            IconName::DeviceDesktop => "device-desktop",
            IconName::DeviceGamepad => "device-gamepad",
            IconName::DeviceSpeaker => "device-speaker",
            IconName::DeviceSpeakerOff => "device-speaker-off",
            IconName::FileText => "file-text",
            IconName::FileUnknown => "file-unknown",
            IconName::Headphones => "headphones",
            IconName::HeadphonesOff => "headphones-off",
            IconName::Headset => "headset",
            IconName::HeadsetOff => "headset-off",
            IconName::Keyboard => "keyboard",
            IconName::Link => "link",
            IconName::Loader => "loader-2",
            IconName::Lock => "lock",
            IconName::MessageChatbot => "message-chatbot",
            IconName::Microphone => "microphone",
            IconName::MicrophoneOff => "microphone-off",
            IconName::Mouse => "mouse",
            IconName::Network => "network",
            IconName::Phone => "phone",
            IconName::Photo => "photo",
            IconName::Printer => "printer",
            IconName::Search => "search",
            IconName::StarFilled => "star-filled",
            IconName::Volume => "volume",
            IconName::VolumeOff => "volume-off",
            IconName::Wifi => "wifi",
        };
        let mut path = "assets/icons/".to_owned();
        path.append(name);
        path.append(".svg");
        path
    }
}

/// The icon of a thing that is off has the name of the thing with `-off` behind it.
pub proof fn law_off_icons_are_named_after_the_thing()
    ensures
        IconName::BroadcastOff.file_name() == IconName::Broadcast.file_name() + "-off"@,
        IconName::DeviceSpeakerOff.file_name() == IconName::DeviceSpeaker.file_name() + "-off"@,
        IconName::HeadphonesOff.file_name() == IconName::Headphones.file_name() + "-off"@,
        IconName::HeadsetOff.file_name() == IconName::Headset.file_name() + "-off"@,
        IconName::MicrophoneOff.file_name() == IconName::Microphone.file_name() + "-off"@,
        IconName::VolumeOff.file_name() == IconName::Volume.file_name() + "-off"@,
{
    reveal_strlit("-off");
    reveal_strlit("broadcast");
    reveal_strlit("broadcast-off");
    reveal_strlit("device-speaker");
    reveal_strlit("device-speaker-off");
    reveal_strlit("headphones");
    reveal_strlit("headphones-off");
    reveal_strlit("headset");
    reveal_strlit("headset-off");
    reveal_strlit("microphone");
    reveal_strlit("microphone-off");
    reveal_strlit("volume");
    reveal_strlit("volume-off");
    assert("broadcast-off"@ =~= "broadcast"@ + "-off"@);
    assert("device-speaker-off"@ =~= "device-speaker"@ + "-off"@);
    assert("headphones-off"@ =~= "headphones"@ + "-off"@);
    assert("headset-off"@ =~= "headset"@ + "-off"@);
    assert("microphone-off"@ =~= "microphone"@ + "-off"@);
    assert("volume-off"@ =~= "volume"@ + "-off"@);
}

/// Every icon has the file of its own name, and nothing else has it.
pub proof fn law_icons_are_named(icon: IconName)
    ensures
        icon.file_name() == "app-window"@ <==> icon is AppWindow,
        icon.file_name() == "arrow-left"@ <==> icon is ArrowLeft,
        icon.file_name() == "asterisk"@ <==> icon is Asterisk,
        icon.file_name() == "bluetooth"@ <==> icon is Bluetooth,
        icon.file_name() == "brand-google"@ <==> icon is BrandGoogle,
        icon.file_name() == "brand-wikipedia"@ <==> icon is BrandWikipedia,
        icon.file_name() == "brand-youtube"@ <==> icon is BrandYoutube,
        icon.file_name() == "broadcast"@ <==> icon is Broadcast,
        icon.file_name() == "broadcast-off"@ <==> icon is BroadcastOff,
        icon.file_name() == "clipboard"@ <==> icon is Clipboard,
        icon.file_name() == "code"@ <==> icon is Code,
        icon.file_name() == "circle-check-filled"@ <==> icon is CircleCheckFilled,
        icon.file_name() == "device-desktop"@ <==> icon is DeviceDesktop,
        icon.file_name() == "device-gamepad"@ <==> icon is DeviceGamepad,
        icon.file_name() == "device-speaker"@ <==> icon is DeviceSpeaker,
        icon.file_name() == "device-speaker-off"@ <==> icon is DeviceSpeakerOff,
        icon.file_name() == "file-text"@ <==> icon is FileText,
        icon.file_name() == "file-unknown"@ <==> icon is FileUnknown,
        icon.file_name() == "headphones"@ <==> icon is Headphones,
        icon.file_name() == "headphones-off"@ <==> icon is HeadphonesOff,
        icon.file_name() == "headset"@ <==> icon is Headset,
        icon.file_name() == "headset-off"@ <==> icon is HeadsetOff,
        icon.file_name() == "keyboard"@ <==> icon is Keyboard,
        icon.file_name() == "link"@ <==> icon is Link,
        icon.file_name() == "loader-2"@ <==> icon is Loader,
        icon.file_name() == "lock"@ <==> icon is Lock,
        icon.file_name() == "message-chatbot"@ <==> icon is MessageChatbot,
        icon.file_name() == "microphone"@ <==> icon is Microphone,
        icon.file_name() == "microphone-off"@ <==> icon is MicrophoneOff,
        icon.file_name() == "mouse"@ <==> icon is Mouse,
        icon.file_name() == "network"@ <==> icon is Network,
        icon.file_name() == "phone"@ <==> icon is Phone,
        icon.file_name() == "photo"@ <==> icon is Photo,
        icon.file_name() == "printer"@ <==> icon is Printer,
        icon.file_name() == "search"@ <==> icon is Search,
        icon.file_name() == "star-filled"@ <==> icon is StarFilled,
        icon.file_name() == "volume"@ <==> icon is Volume,
        icon.file_name() == "volume-off"@ <==> icon is VolumeOff,
        icon.file_name() == "wifi"@ <==> icon is Wifi,
{
    lemma_own_file(icon, IconName::AppWindow);
    lemma_own_file(icon, IconName::ArrowLeft);
    lemma_own_file(icon, IconName::Asterisk);
    lemma_own_file(icon, IconName::Bluetooth);
    lemma_own_file(icon, IconName::BrandGoogle);
    lemma_own_file(icon, IconName::BrandWikipedia);
    lemma_own_file(icon, IconName::BrandYoutube);
    lemma_own_file(icon, IconName::Broadcast);
    lemma_own_file(icon, IconName::BroadcastOff);
    lemma_own_file(icon, IconName::Clipboard);
    lemma_own_file(icon, IconName::Code);
    lemma_own_file(icon, IconName::CircleCheckFilled);
    lemma_own_file(icon, IconName::DeviceDesktop);
    lemma_own_file(icon, IconName::DeviceGamepad);
    lemma_own_file(icon, IconName::DeviceSpeaker);
    lemma_own_file(icon, IconName::DeviceSpeakerOff);
    lemma_own_file(icon, IconName::FileText);
    lemma_own_file(icon, IconName::FileUnknown);
    lemma_own_file(icon, IconName::Headphones);
    lemma_own_file(icon, IconName::HeadphonesOff);
    lemma_own_file(icon, IconName::Headset);
    lemma_own_file(icon, IconName::HeadsetOff);
    lemma_own_file(icon, IconName::Keyboard);
    lemma_own_file(icon, IconName::Link);
    lemma_own_file(icon, IconName::Loader);
    lemma_own_file(icon, IconName::Lock);
    lemma_own_file(icon, IconName::MessageChatbot);
    lemma_own_file(icon, IconName::Microphone);
    lemma_own_file(icon, IconName::MicrophoneOff);
    lemma_own_file(icon, IconName::Mouse);
    lemma_own_file(icon, IconName::Network);
    lemma_own_file(icon, IconName::Phone);
    lemma_own_file(icon, IconName::Photo);
    lemma_own_file(icon, IconName::Printer);
    lemma_own_file(icon, IconName::Search);
    lemma_own_file(icon, IconName::StarFilled);
    lemma_own_file(icon, IconName::Volume);
    lemma_own_file(icon, IconName::VolumeOff);
    lemma_own_file(icon, IconName::Wifi);
}

proof fn lemma_own_file(icon: IconName, other: IconName)
    ensures
        icon.file_name() == other.file_name() <==> icon == other,
{
    if icon != other {
        icon.law_files_differ(other);
    }
}

} // verus!
